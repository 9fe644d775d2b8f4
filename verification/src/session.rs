//! The per-connection relay: the chunk handlers of the two directions
//! and the state machine of the two copy loops.
//!
//! The surrounding program owns the sockets, the clock and the store; it
//! reads a chunk, lets a handler decode it, performs the inserts the
//! handler prepared, writes the bytes the handler returned, and drives
//! the state machine with what happened. The handlers return the chunk
//! bytes unchanged whatever decoding did: relay fidelity is their
//! contract, not a habit of the caller.

use vstd::prelude::*;

use crate::codec;
use crate::data::GrowattV6EnergyFragment;
use crate::data_message::DataMessage;

verus! {

/// Handles one chunk read from an inverter: decodes it for persistence
/// and hands back the original bytes for forwarding upstream. The
/// second component always equals the chunk, whatever the decode did;
/// a chunk shorter than a header decodes to nothing and is still
/// forwarded.
pub fn handle_inverter_data(
    schema: &Vec<GrowattV6EnergyFragment>,
    data: &[u8],
    now_micros: i64,
) -> (r: (Option<DataMessage>, Vec<u8>))
    ensures
        r.1@ == data@,
        data@.len() >= 8 ==> (r.0 matches Some(m) && crate::decoder::spec_decode_ok(
            schema@,
            data@,
            now_micros,
            m,
        )),
        data@.len() < 8 ==> r.0 is None,
{
    let forward = vstd::slice::slice_to_vec(data);
    match crate::decoder::decode(schema, data, now_micros) {
        Ok(m) => (Some(m), forward),
        Err(_) => (None, forward),
    }
}

/// As `handle_inverter_data`, with the decode stamped at the local
/// wall clock, as the relay stamps live traffic: whatever the clock
/// read, the message is the decode of the chunk at that instant, and
/// the chunk is returned unchanged for forwarding.
pub fn handle_inverter_data_now(
    schema: &Vec<GrowattV6EnergyFragment>,
    data: &[u8],
) -> (r: (Option<DataMessage>, Vec<u8>))
    ensures
        r.1@ == data@,
        data@.len() >= 8 ==> (r.0 matches Some(m) && crate::decoder::spec_decode_ok(
            schema@,
            data@,
            m.time_micros,
            m,
        )),
        data@.len() < 8 ==> r.0 is None,
{
    let now = crate::time::local_now_micros();
    handle_inverter_data(schema, data, now)
}

/// Handles one chunk read from the remote side: unscrambles it for
/// persistence and hands back the original bytes for forwarding to the
/// inverter. The second component always equals the chunk; a chunk
/// shorter than a header yields nothing to persist and is still
/// forwarded.
pub fn handle_remote_data(data: &[u8]) -> (r: (Option<Vec<u8>>, Vec<u8>))
    ensures
        r.1@ == data@,
        data@.len() >= 8 ==> (r.0 matches Some(u) && u@ == codec::spec_unscramble(data@)),
        data@.len() < 8 ==> r.0 is None,
{
    let forward = vstd::slice::slice_to_vec(data);
    match codec::unscramble_data(data) {
        Ok(u) => (Some(u), forward),
        Err(_) => (None, forward),
    }
}

/// One direction of a session.
#[derive(Debug, Clone, Copy, PartialEq, Eq, Structural)]
pub enum Direction {
    InverterToRemote,
    RemoteToInverter,
}

/// The direction the same session copies the other way.
pub open spec fn spec_opposite(dir: Direction) -> Direction {
    match dir {
        Direction::InverterToRemote => Direction::RemoteToInverter,
        Direction::RemoteToInverter => Direction::InverterToRemote,
    }
}

/// What one copy loop saw when it woke up: the shared token was
/// cancelled, the read failed, a chunk of so many bytes arrived (zero
/// meaning the peer closed its half), or the write of the last chunk
/// failed.
#[derive(Debug, Clone, Copy, PartialEq, Eq, Structural)]
pub enum CopyEvent {
    Cancelled,
    ReadFailed,
    Chunk(usize),
    WriteFailed,
}

/// What the loop does next: forward the chunk it just processed, or
/// stop, cleanly or on a failure.
#[derive(Debug, Clone, Copy, PartialEq, Eq, Structural)]
pub enum CopyAction {
    Forward,
    Stop,
    StopFailed,
}

/// The state of one copy loop: how many bytes it has forwarded, whether
/// it has stopped, and whether it stopped on an error.
#[derive(Debug, Clone, Copy, PartialEq, Eq, Structural)]
pub struct CopyState {
    pub bytes_forwarded: u64,
    pub done: bool,
    pub failed: bool,
}

/// Addition on the byte counter, stuck at the top of the range.
pub open spec fn spec_sat_add(a: u64, b: u64) -> u64 {
    if a + b > u64::MAX {
        u64::MAX
    } else {
        (a + b) as u64
    }
}

/// One transition of a copy loop: cancellation and end of stream stop
/// it, a failure of either socket half stops it as failed, and a
/// nonempty chunk is forwarded and counted. The decision does not look
/// at decode or persistence outcomes: bytes flow regardless.
pub open spec fn spec_copy_step(s: CopyState, event: CopyEvent) -> (CopyState, CopyAction) {
    match event {
        CopyEvent::Cancelled => (
            (CopyState { done: true, ..s }),
            CopyAction::Stop,
        ),
        CopyEvent::ReadFailed => (
            (CopyState { done: true, failed: true, ..s }),
            CopyAction::StopFailed,
        ),
        CopyEvent::Chunk(n) => if n == 0 {
            ((CopyState { done: true, ..s }), CopyAction::Stop)
        } else {
            (
                (CopyState { bytes_forwarded: spec_sat_add(s.bytes_forwarded, n as u64), ..s }),
                CopyAction::Forward,
            )
        },
        CopyEvent::WriteFailed => (
            (CopyState { done: true, failed: true, ..s }),
            CopyAction::StopFailed,
        ),
    }
}

impl CopyState {
    /// A loop that has not run: nothing forwarded, not stopped.
    pub fn new() -> (r: Self)
        ensures
            r == (CopyState { bytes_forwarded: 0, done: false, failed: false }),
    {
        CopyState { bytes_forwarded: 0, done: false, failed: false }
    }

    /// Advances the loop state by one event.
    pub fn step(&mut self, event: CopyEvent) -> (a: CopyAction)
        requires
            !old(self).done,
        ensures
            *final(self) == spec_copy_step(*old(self), event).0,
            a == spec_copy_step(*old(self), event).1,
    {
        match event {
            CopyEvent::Cancelled => {
                self.done = true;
                CopyAction::Stop
            },
            CopyEvent::ReadFailed => {
                self.done = true;
                self.failed = true;
                CopyAction::StopFailed
            },
            CopyEvent::Chunk(n) => {
                if n == 0 {
                    self.done = true;
                    CopyAction::Stop
                } else {
                    let add = n as u64;
                    self.bytes_forwarded = if self.bytes_forwarded <= u64::MAX - add {
                        self.bytes_forwarded + add
                    } else {
                        u64::MAX
                    };
                    CopyAction::Forward
                }
            },
            CopyEvent::WriteFailed => {
                self.done = true;
                self.failed = true;
                CopyAction::StopFailed
            },
        }
    }
}

/// The state of one session: its two copy loops and the shared
/// cancellation token.
#[derive(Debug, Clone, Copy, PartialEq, Eq, Structural)]
pub struct SessionState {
    pub inverter_to_remote: CopyState,
    pub remote_to_inverter: CopyState,
    pub cancel_requested: bool,
}

/// The loop state of a direction.
pub open spec fn spec_direction_state(s: SessionState, dir: Direction) -> CopyState {
    match dir {
        Direction::InverterToRemote => s.inverter_to_remote,
        Direction::RemoteToInverter => s.remote_to_inverter,
    }
}

/// One transition of the session: the named direction steps, and any
/// stop, clean or failed, raises the shared cancellation flag so the
/// other loop's pending read wakes; the flag never falls again.
pub open spec fn spec_session_step(s: SessionState, dir: Direction, event: CopyEvent) -> (
    SessionState,
    CopyAction,
) {
    let stepped = spec_copy_step(spec_direction_state(s, dir), event);
    let cancel = s.cancel_requested || !(stepped.1 is Forward);
    let next = match dir {
        Direction::InverterToRemote => (
            SessionState {
                inverter_to_remote: stepped.0,
                remote_to_inverter: s.remote_to_inverter,
                cancel_requested: cancel,
            }
        ),
        Direction::RemoteToInverter => (
            SessionState {
                inverter_to_remote: s.inverter_to_remote,
                remote_to_inverter: stepped.0,
                cancel_requested: cancel,
            }
        ),
    };
    (next, stepped.1)
}

/// Whether both loops have stopped and the session can be joined.
pub open spec fn spec_session_finished(s: SessionState) -> bool {
    s.inverter_to_remote.done && s.remote_to_inverter.done
}

impl SessionState {
    /// A session that has not copied anything yet.
    pub fn new() -> (r: Self)
        ensures
            r == (SessionState {
                inverter_to_remote: CopyState { bytes_forwarded: 0, done: false, failed: false },
                remote_to_inverter: CopyState { bytes_forwarded: 0, done: false, failed: false },
                cancel_requested: false,
            }),
    {
        SessionState {
            inverter_to_remote: CopyState::new(),
            remote_to_inverter: CopyState::new(),
            cancel_requested: false,
        }
    }

    /// Advances one direction of the session by one event.
    pub fn step(&mut self, dir: Direction, event: CopyEvent) -> (a: CopyAction)
        requires
            !spec_direction_state(*old(self), dir).done,
        ensures
            *final(self) == spec_session_step(*old(self), dir, event).0,
            a == spec_session_step(*old(self), dir, event).1,
    {
        let a = match dir {
            Direction::InverterToRemote => self.inverter_to_remote.step(event),
            Direction::RemoteToInverter => self.remote_to_inverter.step(event),
        };
        let keep_going = match a {
            CopyAction::Forward => true,
            _ => false,
        };
        if !keep_going {
            self.cancel_requested = true;
        }
        a
    }

    /// Whether the shared token asks the loops to stop.
    pub fn should_cancel(&self) -> (r: bool)
        ensures
            r == self.cancel_requested,
    {
        self.cancel_requested
    }

    /// Whether both loops have stopped.
    pub fn finished(&self) -> (r: bool)
        ensures
            r == spec_session_finished(*self),
    {
        self.inverter_to_remote.done && self.remote_to_inverter.done
    }
}

/// Either half closing winds the session down: a step that does not
/// forward raises the cancellation flag, the other loop's cancelled
/// wake-up stops it, the session is then finished, and neither byte
/// count moves after its loop has stopped.
pub proof fn lemma_session_winds_down(s: SessionState, dir: Direction, event: CopyEvent)
    requires
        !spec_direction_state(s, dir).done,
        !(spec_session_step(s, dir, event).1 is Forward),
    ensures
        spec_session_step(s, dir, event).0.cancel_requested,
        ({
            let s1 = spec_session_step(s, dir, event).0;
            let other = spec_opposite(dir);
            !spec_direction_state(s1, other).done ==> {
                let s2 = spec_session_step(s1, other, CopyEvent::Cancelled).0;
                &&& spec_session_finished(s2)
                &&& spec_direction_state(s2, dir).bytes_forwarded == spec_direction_state(
                    s1,
                    dir,
                ).bytes_forwarded
                &&& spec_direction_state(s2, other).bytes_forwarded == spec_direction_state(
                    s1,
                    other,
                ).bytes_forwarded
            }
        }),
{
}

} // verus!
