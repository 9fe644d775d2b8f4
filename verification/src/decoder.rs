//! Classifying and decoding one framed buffer.

use vstd::prelude::*;

use crate::codec;
use crate::data::GrowattV6EnergyFragment;
use crate::data_message::DataMessage;
use crate::error::DecodeError;
use crate::message_type::MessageType;

verus! {

/// The big-endian 16-bit value of two bytes.
pub open spec fn spec_be_u16(hi: u8, lo: u8) -> u16 {
    (hi * 256 + lo) as u16
}

/// The advisory payload length at bytes 4 and 5 of the header,
/// big-endian; the relay never trusts it, it is read for logging.
pub fn frame_payload_length(buf: &[u8]) -> (r: u16)
    requires
        buf@.len() >= 8,
    ensures
        r == spec_be_u16(buf@[4], buf@[5]),
{
    (buf[4] as u16) * 256 + (buf[5] as u16)
}

/// What a decoded message holds for a clear (already unscrambled)
/// frame, schema and decode time: the frame is classified by byte 7 of
/// the header and either fully decoded (`Data4`) or kept as a
/// placeholder; the whole frame is kept as `raw` whatever the type.
/// The decode is a function of the three inputs alone.
pub open spec fn spec_decoded_clear(
    schema: Seq<GrowattV6EnergyFragment>,
    bytes: Seq<u8>,
    now: i64,
    m: DataMessage,
) -> bool {
    let t = crate::message_type::spec_message_type(bytes[7]);
    &&& m.time_micros == now
    &&& m.raw@ == bytes
    &&& m.header@ == bytes.subrange(0, 8)
    &&& m.data_type == t
    &&& if t is Data4 {
        let fold = crate::data_message::spec_data4_fold(schema, bytes.skip(8));
        &&& m.data.deep_view() == fold.0
        &&& m.serial_number.deep_view() == fold.1
    } else {
        &&& m.data.deep_view() == Seq::<(Seq<char>, Seq<char>)>::empty()
        &&& m.serial_number is None
    }
}

/// What a decoded message holds for a frame as read off the wire: the
/// clear decode of its unscrambled bytes.
pub open spec fn spec_decode_ok(
    schema: Seq<GrowattV6EnergyFragment>,
    buf: Seq<u8>,
    now: i64,
    m: DataMessage,
) -> bool {
    spec_decoded_clear(schema, codec::spec_unscramble(buf), now, m)
}

/// Decodes one frame that is already in the clear: classify byte 7,
/// then a full decode for `Data4` and a placeholder for every other
/// type. Only a buffer shorter than the header is rejected. The
/// offline decrypt path hands already-unscrambled dumps here.
pub fn decode_clear(
    schema: &Vec<GrowattV6EnergyFragment>,
    bytes: &[u8],
    now_micros: i64,
) -> (r: Result<DataMessage, DecodeError>)
    ensures
        bytes@.len() >= 8 ==> (r matches Ok(m) && spec_decoded_clear(
            schema@,
            bytes@,
            now_micros,
            m,
        )),
        bytes@.len() < 8 ==> (r matches Err(e) && e is ShortFrame),
{
    if bytes.len() < 8 {
        return Err(DecodeError::ShortFrame);
    }
    let message_type = MessageType::from(bytes[7]);
    match message_type {
        MessageType::Data4 => DataMessage::data4(schema, bytes, now_micros),
        _ => DataMessage::placeholder(bytes, message_type, now_micros),
    }
}

/// Decodes one framed buffer against the schema: unscramble, then the
/// clear decode. Only a buffer shorter than the header is rejected.
pub fn decode(
    schema: &Vec<GrowattV6EnergyFragment>,
    buf: &[u8],
    now_micros: i64,
) -> (r: Result<DataMessage, DecodeError>)
    ensures
        buf@.len() >= 8 ==> (r matches Ok(m) && spec_decode_ok(schema@, buf@, now_micros, m)),
        buf@.len() < 8 ==> (r matches Err(e) && e is ShortFrame),
{
    let unscrambled = match codec::unscramble_data(buf) {
        Ok(u) => u,
        Err(e) => {
            return Err(e);
        },
    };
    decode_clear(schema, unscrambled.as_slice(), now_micros)
}

/// Decode is pure: two decodes of the same frame against the same
/// schema agree on everything but the timestamp, which is the clock
/// value each was handed.
pub proof fn lemma_decode_deterministic(
    schema: Seq<GrowattV6EnergyFragment>,
    buf: Seq<u8>,
    t1: i64,
    t2: i64,
    m1: DataMessage,
    m2: DataMessage,
)
    requires
        buf.len() >= 8,
        spec_decode_ok(schema, buf, t1, m1),
        spec_decode_ok(schema, buf, t2, m2),
    ensures
        m1.raw@ == m2.raw@,
        m1.header@ == m2.header@,
        m1.data_type == m2.data_type,
        m1.data.deep_view() == m2.data.deep_view(),
        m1.serial_number.deep_view() == m2.serial_number.deep_view(),
        m1.time_micros == t1,
        m2.time_micros == t2,
{
}

/// One entry of an offline decrypt run: the hex text is parsed to
/// bytes, and unscrambled first where the entry asks for it.
pub fn offline_entry_bytes(raw_hex: &str, decrypt: bool) -> (r: Result<Vec<u8>, DecodeError>)
    ensures
        ({
            let hex_ok = raw_hex@.len() % 2 == 0 && codec::all_hex_digits(raw_hex@);
            let bytes = codec::hex_decoded(raw_hex@);
            match r {
                Ok(v) => hex_ok && (if decrypt {
                    bytes.len() >= 8 && v@ == codec::spec_unscramble(bytes)
                } else {
                    v@ == bytes
                }),
                Err(e) => (if !hex_ok {
                    e is BadHex
                } else {
                    decrypt && bytes.len() < 8 && e is ShortFrame
                }),
            }
        }),
{
    let bytes = match codec::hex_to_bytes(raw_hex) {
        Ok(v) => v,
        Err(e) => {
            return Err(e);
        },
    };
    if decrypt {
        codec::unscramble_data(bytes.as_slice())
    } else {
        Ok(bytes)
    }
}

} // verus!
