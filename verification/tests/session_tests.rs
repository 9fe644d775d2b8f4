use growatt_server::codec::unscramble_data;
use growatt_server::data::{Datatype, GrowattV6EnergyFragment};
use growatt_server::session::{
    handle_inverter_data, handle_remote_data, CopyAction, CopyEvent, Direction, SessionState,
};

#[test]
fn inverter_chunks_are_forwarded_verbatim() {
    let schema = vec![GrowattV6EnergyFragment {
        name: "Value".to_string(),
        offset: 0,
        bytes_len: 2,
        fragment_type: Datatype::Integer,
        fraction: None,
    }];
    let mut clear = vec![0u8; 12];
    clear[7] = 0x04;
    clear[8] = 0x30;
    let wire = unscramble_data(&clear).unwrap();
    let (message, forward) = handle_inverter_data(&schema, &wire, 3);
    assert_eq!(forward, wire);
    let m = message.unwrap();
    assert_eq!(m.time_micros, 3);
    assert_eq!(m.get("Value"), Some(&"12288".to_string()));
}

#[test]
fn short_inverter_chunk_is_still_forwarded() {
    let schema: Vec<GrowattV6EnergyFragment> = Vec::new();
    let chunk = [0x00u8, 0x00];
    let (message, forward) = handle_inverter_data(&schema, &chunk, 0);
    assert!(message.is_none());
    assert_eq!(forward, vec![0x00, 0x00]);
}

#[test]
fn remote_chunks_are_forwarded_verbatim_and_unscrambled_for_the_archive() {
    let chunk: Vec<u8> = (0u8..32).collect();
    let (stored, forward) = handle_remote_data(&chunk);
    assert_eq!(forward, chunk);
    let stored = stored.unwrap();
    assert_eq!(&stored[..8], &chunk[..8]);
    assert_ne!(stored, chunk);
    let rescrambled = unscramble_data(&stored).unwrap();
    assert_eq!(rescrambled, chunk);
}

#[test]
fn short_remote_chunk_is_still_forwarded() {
    let chunk = [0xffu8];
    let (stored, forward) = handle_remote_data(&chunk);
    assert!(stored.is_none());
    assert_eq!(forward, vec![0xff]);
}

#[test]
fn chunks_are_counted_and_eof_winds_the_session_down() {
    let mut session = SessionState::new();
    assert_eq!(
        session.step(Direction::InverterToRemote, CopyEvent::Chunk(100)),
        CopyAction::Forward
    );
    assert_eq!(
        session.step(Direction::RemoteToInverter, CopyEvent::Chunk(40)),
        CopyAction::Forward
    );
    assert_eq!(
        session.step(Direction::InverterToRemote, CopyEvent::Chunk(23)),
        CopyAction::Forward
    );
    assert!(!session.should_cancel());
    assert!(!session.finished());

    // the remote half closes: its loop stops and asks the peer to stop
    assert_eq!(
        session.step(Direction::RemoteToInverter, CopyEvent::Chunk(0)),
        CopyAction::Stop
    );
    assert!(session.should_cancel());
    assert!(!session.finished());

    // the other loop's pending read wakes on the cancelled token
    assert_eq!(
        session.step(Direction::InverterToRemote, CopyEvent::Cancelled),
        CopyAction::Stop
    );
    assert!(session.finished());
    assert_eq!(session.inverter_to_remote.bytes_forwarded, 123);
    assert_eq!(session.remote_to_inverter.bytes_forwarded, 40);
    assert!(!session.inverter_to_remote.failed);
    assert!(!session.remote_to_inverter.failed);
}

#[test]
fn a_read_error_stops_as_failed_and_cancels() {
    let mut session = SessionState::new();
    assert_eq!(
        session.step(Direction::InverterToRemote, CopyEvent::ReadFailed),
        CopyAction::StopFailed
    );
    assert!(session.should_cancel());
    assert!(session.inverter_to_remote.failed);
    assert_eq!(
        session.step(Direction::RemoteToInverter, CopyEvent::Cancelled),
        CopyAction::Stop
    );
    assert!(session.finished());
}

#[test]
fn a_write_error_stops_as_failed_and_cancels() {
    let mut session = SessionState::new();
    assert_eq!(
        session.step(Direction::RemoteToInverter, CopyEvent::Chunk(10)),
        CopyAction::Forward
    );
    assert_eq!(
        session.step(Direction::RemoteToInverter, CopyEvent::WriteFailed),
        CopyAction::StopFailed
    );
    assert!(session.should_cancel());
    assert!(session.remote_to_inverter.failed);
    assert_eq!(session.remote_to_inverter.bytes_forwarded, 10);
    assert_eq!(
        session.step(Direction::InverterToRemote, CopyEvent::Cancelled),
        CopyAction::Stop
    );
    assert!(session.finished());
}

#[test]
fn a_failed_insert_does_not_stop_the_relay() {
    // One chunk decodes, its header insert fails in the store; the
    // bytes were already handed back for forwarding, and the session
    // keeps processing the chunks that follow.
    let schema: Vec<GrowattV6EnergyFragment> = Vec::new();
    let mut session = SessionState::new();
    let mut clear = vec![0u8; 16];
    clear[7] = 0x16;
    let wire = unscramble_data(&clear).unwrap();

    let (message, forward) = handle_inverter_data(&schema, &wire, 0);
    assert!(message.is_some());
    assert_eq!(forward, wire);
    assert_eq!(
        session.step(Direction::InverterToRemote, CopyEvent::Chunk(forward.len())),
        CopyAction::Forward
    );

    let (next_message, next_forward) = handle_inverter_data(&schema, &wire, 1);
    assert!(next_message.is_some());
    assert_eq!(next_forward, wire);
    assert_eq!(
        session.step(Direction::InverterToRemote, CopyEvent::Chunk(next_forward.len())),
        CopyAction::Forward
    );
    assert!(!session.should_cancel());
    assert_eq!(session.inverter_to_remote.bytes_forwarded, 32);
}

#[test]
fn config_defaults_fill_the_gaps() {
    let config = growatt_server::config::Config {
        inverters_dir: None,
        database: growatt_server::config::DbConfig {
            username: "u".to_string(),
            password: "p".to_string(),
            host: "h".to_string(),
            port: 5432,
            database: "d".to_string(),
        },
        listen_port: None,
        remote_address: None,
        logging: None,
    };
    assert_eq!(config.effective_listen_port(), 5279);
    assert_eq!(config.effective_remote_address(), "server.growatt.com:5279");
    assert_eq!(config.effective_inverters_dir(), "./inverters/Growatt v6.yaml");

    let tuned = growatt_server::config::Config {
        inverters_dir: Some("./x.yaml".to_string()),
        listen_port: Some(9000),
        remote_address: Some("127.0.0.1:1".to_string()),
        ..config
    };
    assert_eq!(tuned.effective_listen_port(), 9000);
    assert_eq!(tuned.effective_remote_address(), "127.0.0.1:1");
    assert_eq!(tuned.effective_inverters_dir(), "./x.yaml");
}
