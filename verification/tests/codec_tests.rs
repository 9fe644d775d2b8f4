use growatt_server::codec::{hex_bytes_to_ascii, hex_bytes_to_hex, hex_to_bytes, unscramble_data};
use growatt_server::error::DecodeError;

const MASK: [u8; 7] = [b'G', b'r', b'o', b'w', b'a', b't', b't'];

#[test]
fn unscramble_keeps_the_header() {
    let frame: Vec<u8> = (0u8..20).collect();
    let out = unscramble_data(&frame).unwrap();
    assert_eq!(out.len(), frame.len());
    assert_eq!(&out[..8], &frame[..8]);
}

#[test]
fn unscramble_applies_the_keystream() {
    let frame: Vec<u8> = (0u8..24).collect();
    let out = unscramble_data(&frame).unwrap();
    for i in 8..frame.len() {
        assert_eq!(out[i], frame[i] ^ MASK[(i - 8) % 7]);
    }
}

#[test]
fn unscramble_twice_is_identity() {
    let frame: Vec<u8> = vec![
        0, 1, 0, 6, 1, 28, 34, 27, 0x12, 0x34, 0x56, 0x78, 0x9a, 0xbc, 0xde, 0xf0, 0xff,
    ];
    let once = unscramble_data(&frame).unwrap();
    let twice = unscramble_data(&once).unwrap();
    assert_eq!(twice, frame);
}

#[test]
fn unscramble_rejects_short_input() {
    assert_eq!(unscramble_data(&[0x00, 0x00]), Err(DecodeError::ShortFrame));
    assert_eq!(unscramble_data(&[]), Err(DecodeError::ShortFrame));
    assert_eq!(
        unscramble_data(&[1, 2, 3, 4, 5, 6, 7]),
        Err(DecodeError::ShortFrame)
    );
    assert!(unscramble_data(&[1, 2, 3, 4, 5, 6, 7, 8]).is_ok());
}

#[test]
fn hex_parses_pairs_of_digits() {
    assert_eq!(hex_to_bytes("00010A").unwrap(), vec![0x00, 0x01, 0x0a]);
    assert_eq!(hex_to_bytes("ff7E").unwrap(), vec![0xff, 0x7e]);
    assert_eq!(hex_to_bytes("").unwrap(), Vec::<u8>::new());
}

#[test]
fn hex_rejects_odd_length_and_bad_digits() {
    assert_eq!(hex_to_bytes("abc"), Err(DecodeError::BadHex));
    assert_eq!(hex_to_bytes("0g"), Err(DecodeError::BadHex));
    assert_eq!(hex_to_bytes("zz"), Err(DecodeError::BadHex));
}

#[test]
fn hex_encoding_is_lower_case_pairs() {
    assert_eq!(hex_bytes_to_hex(&[0x00, 0xff, 0x1a]), "00ff1a");
    assert_eq!(hex_bytes_to_hex(&[]), "");
}

#[test]
fn hex_round_trip() {
    let bytes: Vec<u8> = (0u8..=255).collect();
    let hex = hex_bytes_to_hex(&bytes);
    assert_eq!(hex_to_bytes(&hex).unwrap(), bytes);
}

#[test]
fn ascii_widens_every_byte() {
    assert_eq!(hex_bytes_to_ascii(b"DXD3"), "DXD3");
    assert_eq!(hex_bytes_to_ascii(&[0x41, 0x00, 0x42]), "A\u{0}B");
    assert_eq!(hex_bytes_to_ascii(&[0xe9]), "\u{e9}");
}
