use growatt_server::codec::hex_to_bytes;
use growatt_server::codec::unscramble_data;
use growatt_server::data::{Datatype, GrowattV6EnergyFragment};
use growatt_server::data_message::DataMessage;
use growatt_server::decoder::{decode, frame_payload_length};
use growatt_server::error::{DecodeError, FragmentError};
use growatt_server::fragment::fragment_value;
use growatt_server::message_type::MessageType;

fn fragment(name: &str, offset: u32, len: u32, ty: Datatype, fraction: Option<u32>) -> GrowattV6EnergyFragment {
    GrowattV6EnergyFragment {
        name: name.to_string(),
        offset,
        bytes_len: len,
        fragment_type: ty,
        fraction,
    }
}

/// A clear frame scrambled for the wire: the transform is its own
/// inverse, so scrambling reuses it.
fn scrambled(clear: &[u8]) -> Vec<u8> {
    unscramble_data(clear).unwrap()
}

#[test]
fn test_meter_data() {
    let data = hex_to_bytes("00010006011C221B4458443333333333333300000000000000000000000000000000000000000043170C140A370C00F232313535342E32392C333133362E32342C3435362E342C3533342E322C3933352E372C34312E302C2D33372E372C2D3131392E362C3435382E322C3533352E352C3934332E332C302E392C302E392C302E392C3233362E392C3233322E392C3233352E332C342E312C342E352C352E342C313931382E362C2D37342E372C2D37342E372C302E392C35302E302C313236312E362C32303239322E362C3632382E392C323530372E322C32313738312E322C3732312E382C3737322E392C313634312E332C3732312E382C3737322E392C313634312E332C32343639302E35342C3430362E372C3430382E302C3430362E302C3481").unwrap();

    let dm = DataMessage::meter_data(&data, 0).unwrap();

    assert_eq!(dm.data_type, MessageType::MeterData);
    assert_eq!(dm.data.len(), 40);
    assert_eq!(dm.serial_number, Some("DXD3333333".to_string()));
    assert_eq!(dm.get("power_factor"), Some(&"0.9".to_string()));
}

#[test]
fn short_frame_is_rejected_by_every_decoder() {
    let two = [0x00u8, 0x00];
    let schema: Vec<GrowattV6EnergyFragment> = Vec::new();
    assert!(matches!(decode(&schema, &two, 0), Err(DecodeError::ShortFrame)));
    assert!(matches!(
        DataMessage::data4(&schema, &two, 0),
        Err(DecodeError::ShortFrame)
    ));
    assert!(matches!(
        DataMessage::placeholder(&two, MessageType::Ping, 0),
        Err(DecodeError::ShortFrame)
    ));
    assert!(matches!(
        DataMessage::meter_data(&two, 0),
        Err(DecodeError::ShortFrame)
    ));
}

#[test]
fn ping_frame_decodes_to_placeholder() {
    let mut clear = vec![0u8; 16];
    clear[4] = 0;
    clear[5] = 8;
    clear[7] = 0x16;
    let wire = scrambled(&clear);
    let schema: Vec<GrowattV6EnergyFragment> = Vec::new();
    let dm = decode(&schema, &wire, 7).unwrap();
    assert_eq!(dm.data_type, MessageType::Ping);
    assert_eq!(dm.data.len(), 0);
    assert_eq!(dm.serial_number, None);
    assert_eq!(dm.header, &clear[..8]);
    assert_eq!(dm.raw, clear);
    assert_eq!(dm.time_micros, 7);
    assert_eq!(dm.data_type.json_name(), "\"Ping\"");
}

#[test]
fn data4_skips_a_fragment_past_the_body() {
    let mut clear = vec![0u8; 24];
    clear[7] = 0x04;
    clear[8] = 0x01;
    clear[9] = 0x02;
    let wire = scrambled(&clear);
    let schema = vec![
        fragment("Counter", 0, 2, Datatype::Integer, None),
        fragment("Beyond", 1000, 4, Datatype::Integer, None),
    ];
    let dm = decode(&schema, &wire, 0).unwrap();
    assert_eq!(dm.data_type, MessageType::Data4);
    assert_eq!(dm.data.len(), 1);
    assert_eq!(dm.get("Counter"), Some(&"258".to_string()));
    assert_eq!(dm.get("Beyond"), None);
}

#[test]
fn data4_reads_fragments_and_serial() {
    // body: 4-byte integer, 2-byte scaled value, 3-byte serial text
    let mut clear = vec![0u8; 8 + 9];
    clear[7] = 0x04;
    clear[8..12].copy_from_slice(&[0x00, 0x01, 0x00, 0x00]);
    clear[12..14].copy_from_slice(&[0x00, 0x7b]);
    clear[14..17].copy_from_slice(b"AB9");
    let wire = scrambled(&clear);
    let schema = vec![
        fragment("Total", 0, 4, Datatype::Integer, None),
        fragment("Power", 4, 2, Datatype::Float, Some(10)),
        fragment("Inverter SN", 6, 3, Datatype::String, None),
    ];
    let dm = decode(&schema, &wire, 0).unwrap();
    assert_eq!(dm.raw, clear);
    assert_eq!(dm.header, &clear[..8]);
    assert_eq!(dm.get("Total"), Some(&"65536".to_string()));
    assert_eq!(dm.get("Power"), Some(&"12.3".to_string()));
    assert_eq!(dm.get("Inverter SN"), Some(&"AB9".to_string()));
    assert_eq!(dm.serial_number, Some("AB9".to_string()));
}

#[test]
fn decode_is_deterministic_apart_from_time() {
    let mut clear = vec![0u8; 20];
    clear[7] = 0x04;
    let wire = scrambled(&clear);
    let schema = vec![fragment("Value", 0, 4, Datatype::Integer, None)];
    let a = decode(&schema, &wire, 1).unwrap();
    let b = decode(&schema, &wire, 2).unwrap();
    assert_eq!(a.raw, b.raw);
    assert_eq!(a.header, b.header);
    assert_eq!(a.data_type, b.data_type);
    assert_eq!(a.data, b.data);
    assert_eq!(a.serial_number, b.serial_number);
    assert_eq!(a.time_micros, 1);
    assert_eq!(b.time_micros, 2);
}

#[test]
fn classification_follows_the_type_byte() {
    assert_eq!(MessageType::from(0x03), MessageType::Data3);
    assert_eq!(MessageType::from(0x04), MessageType::Data4);
    assert_eq!(MessageType::from(0x16), MessageType::Ping);
    assert_eq!(MessageType::from(0x18), MessageType::Configure);
    assert_eq!(MessageType::from(0x19), MessageType::Identify);
    assert_eq!(MessageType::from(0x42), MessageType::Unknown);
}

#[test]
fn payload_length_is_big_endian() {
    let frame = [0u8, 0, 0, 0, 0x01, 0x1c, 0, 0x16];
    assert_eq!(frame_payload_length(&frame), 0x011c);
}

#[test]
fn date_fragment_renders_and_validates() {
    let body = [22u8, 3, 15, 10, 20, 30];
    let frag = fragment("Time", 0, 6, Datatype::Date, None);
    assert_eq!(fragment_value(&frag, &body).unwrap(), "2022-03-15 10:20:30");

    let bad = [22u8, 13, 15, 10, 20, 30];
    assert_eq!(fragment_value(&frag, &bad), Err(FragmentError::BadDate));

    let leap = [24u8, 2, 29, 0, 0, 0];
    assert_eq!(fragment_value(&frag, &leap).unwrap(), "2024-02-29 00:00:00");
    let not_leap = [23u8, 2, 29, 0, 0, 0];
    assert_eq!(fragment_value(&frag, &not_leap), Err(FragmentError::BadDate));
}

#[test]
fn numeric_fragments_pad_and_scale() {
    let body = [0x00u8, 0x01, 0x02, 0x03, 0x04];
    let int1 = fragment("A", 1, 1, Datatype::Integer, None);
    assert_eq!(fragment_value(&int1, &body).unwrap(), "1");
    let int4 = fragment("B", 0, 4, Datatype::Integer, None);
    assert_eq!(fragment_value(&int4, &body).unwrap(), "66051");
    let wide = fragment("C", 0, 5, Datatype::Integer, None);
    assert_eq!(fragment_value(&wide, &body), Err(FragmentError::SliceOutOfRange));
    let out = fragment("D", 4, 2, Datatype::Integer, None);
    assert_eq!(fragment_value(&out, &body), Err(FragmentError::SliceOutOfRange));

    let float = fragment("E", 2, 2, Datatype::Float, Some(100));
    assert_eq!(fragment_value(&float, &body).unwrap(), "5.15");
    let float_zero_div = fragment("F", 2, 2, Datatype::Float, Some(0));
    assert_eq!(fragment_value(&float_zero_div, &body).unwrap(), "515");
    let float_no_div = fragment("G", 2, 2, Datatype::Float, None);
    assert_eq!(fragment_value(&float_no_div, &body).unwrap(), "515");
}

#[test]
fn duplicate_fragment_names_keep_one_entry() {
    let mut clear = vec![0u8; 16];
    clear[7] = 0x04;
    clear[8] = 1;
    clear[9] = 2;
    let wire = scrambled(&clear);
    let schema = vec![
        fragment("Twice", 0, 1, Datatype::Integer, None),
        fragment("Twice", 1, 1, Datatype::Integer, None),
    ];
    let dm = decode(&schema, &wire, 0).unwrap();
    assert_eq!(dm.data.len(), 1);
    assert_eq!(dm.get("Twice"), Some(&"2".to_string()));
}

#[test]
fn same_named_fragments_share_one_field() {
    // a fragment past the body leaves no field of its own, but a
    // fragment of the same name that decodes still yields the entry
    let mut clear = vec![0u8; 12];
    clear[7] = 0x04;
    clear[8] = 9;
    let wire = scrambled(&clear);
    let schema = vec![
        fragment("Shared", 1000, 2, Datatype::Integer, None),
        fragment("Shared", 0, 1, Datatype::Integer, None),
    ];
    let dm = decode(&schema, &wire, 0).unwrap();
    assert_eq!(dm.data.len(), 1);
    assert_eq!(dm.get("Shared"), Some(&"9".to_string()));
}

#[test]
fn describe_lists_type_serial_and_fields() {
    let data = hex_to_bytes("00010006011C221B4458443333333333333300000000000000000000000000000000000000000043170C140A370C00F232313535342E32392C333133362E32342C3435362E342C3533342E322C3933352E372C34312E302C2D33372E372C2D3131392E362C3435382E322C3533352E352C3934332E332C302E392C302E392C302E392C3233362E392C3233322E392C3233352E332C342E312C342E352C352E342C313931382E362C2D37342E372C2D37342E372C302E392C35302E302C313236312E362C32303239322E362C3632382E392C323530372E322C32313738312E322C3732312E382C3737322E392C313634312E332C3732312E382C3737322E392C313634312E332C32343639302E35342C3430362E372C3430382E302C3430362E302C3481").unwrap();
    let dm = DataMessage::meter_data(&data, 5).unwrap();
    let text = dm.describe();
    assert!(text.starts_with("Data Message:\n  Type: MeterData\n  Time: 5\n  Serial Number: Some(\"DXD3333333\")\n  Data:\n"));
    assert!(text.contains("    power_factor: 0.9\n"));
    assert!(text.contains("    active_energy: 21554.29\n"));
}

#[test]
fn offline_entries_decode_with_and_without_decrypt() {
    let clear: Vec<u8> = vec![0, 1, 0, 6, 0, 2, 0, 0x16, 0xaa, 0xbb];
    let wire = scrambled(&clear);
    let wire_hex = growatt_server::codec::hex_bytes_to_hex(&wire);
    let plain_hex = growatt_server::codec::hex_bytes_to_hex(&clear);

    let decoded = growatt_server::decoder::offline_entry_bytes(&wire_hex, true).unwrap();
    assert_eq!(decoded, clear);
    let passed = growatt_server::decoder::offline_entry_bytes(&plain_hex, false).unwrap();
    assert_eq!(passed, clear);
    assert_eq!(
        growatt_server::decoder::offline_entry_bytes("0x", false),
        Err(DecodeError::BadHex)
    );
    assert_eq!(
        growatt_server::decoder::offline_entry_bytes("0000", true),
        Err(DecodeError::ShortFrame)
    );
}

#[test]
fn error_labels_match_the_taxonomy() {
    assert_eq!(DecodeError::ShortFrame.label(), "SHORT_FRAME");
    assert_eq!(DecodeError::BadHex.label(), "BAD_HEX");
    assert_eq!(FragmentError::SliceOutOfRange.label(), "SLICE_OUT_OF_RANGE");
    assert_eq!(FragmentError::BadDate.label(), "BAD_DATE");
}

/// A synthetic meter frame: header, a 30-byte serial region, 10
/// reserved bytes, the ASCII body, and a 2-byte CRC.
fn meter_frame(serial: &str, body: &str) -> Vec<u8> {
    let mut frame = vec![0u8; 8];
    let mut region = serial.as_bytes().to_vec();
    region.resize(30, 0);
    frame.extend_from_slice(&region);
    frame.extend_from_slice(&[0u8; 10]);
    frame.extend_from_slice(body.as_bytes());
    frame.extend_from_slice(&[0xab, 0xcd]);
    frame
}

#[test]
fn meter_values_beyond_the_fortieth_are_dropped() {
    let body = (1..=41).map(|i| i.to_string()).collect::<Vec<_>>().join(",");
    let dm = DataMessage::meter_data(&meter_frame("MTR1", &body), 0).unwrap();
    assert_eq!(dm.data.len(), 40);
    assert_eq!(dm.get("active_energy"), Some(&"1".to_string()));
    assert_eq!(dm.get("l3_voltage_1"), Some(&"40".to_string()));
    assert_eq!(dm.serial_number, Some("MTR1".to_string()));
}

#[test]
fn meter_values_short_of_forty_fill_the_first_keys() {
    let dm = DataMessage::meter_data(&meter_frame("MTR2", "7.5,,8"), 0).unwrap();
    assert_eq!(dm.data.len(), 2);
    assert_eq!(dm.get("active_energy"), Some(&"7.5".to_string()));
    assert_eq!(dm.get("reactive_energy"), Some(&"8".to_string()));
    assert_eq!(dm.get("active_power_l1"), None);
}
