//! Framed-message codec: the XOR keystream scrambling and the hex
//! conversions used by the offline decoder.
//!
//! A frame is an 8-byte clear header followed by a body that is XORed,
//! byte for byte, with the repeating 7-byte keystream `"Growatt"`.

use vstd::prelude::*;

use crate::error::DecodeError;

verus! {

/// The repeating keystream, the ASCII bytes of `"Growatt"`.
pub open spec fn keystream() -> Seq<u8> {
    seq![0x47u8, 0x72u8, 0x6fu8, 0x77u8, 0x61u8, 0x74u8, 0x74u8]
}

/// The keystream is exactly the character sequence of `"Growatt"`.
pub proof fn lemma_keystream_is_growatt()
    ensures
        forall|i: int|
            0 <= i < 7 ==> #[trigger] (keystream()[i] as u32) == ("Growatt"@[i] as u32),
{
    reveal_strlit("Growatt");
}

/// What unscrambling (equally: scrambling) does: the first 8 bytes pass
/// through in clear, every later byte is XORed with the keystream byte
/// at its body position.
pub open spec fn spec_unscramble(b: Seq<u8>) -> Seq<u8> {
    Seq::new(b.len(), |i: int| if i < 8 { b[i] } else { b[i] ^ keystream()[(i - 8) % 7] })
}

/// Removes the XOR obfuscation from a frame: the 8-byte header is kept in
/// clear and each body byte is XORed with the repeating keystream.
/// Rejects buffers shorter than one header.
pub fn unscramble_data(data: &[u8]) -> (r: Result<Vec<u8>, DecodeError>)
    ensures
        data@.len() >= 8 ==> (r matches Ok(v) && v@ == spec_unscramble(data@)),
        data@.len() < 8 ==> (r matches Err(e) && e is ShortFrame),
{
    if data.len() < 8 {
        return Err(DecodeError::ShortFrame);
    }
    let mask: [u8; 7] = [0x47, 0x72, 0x6f, 0x77, 0x61, 0x74, 0x74];
    assert(mask@ =~= keystream());

    let mut out: Vec<u8> = Vec::new();
    let mut i: usize = 0;
    while i < 8
        invariant
            i <= 8,
            data@.len() >= 8,
            out@ =~= data@.subrange(0, i as int),
        decreases 8 - i,
    {
        out.push(data[i]);
        i = i + 1;
    }
    let mut j: usize = 0;
    while i < data.len()
        invariant
            8 <= i <= data@.len(),
            j == (i - 8) % 7,
            mask@ =~= keystream(),
            out@.len() == i,
            forall|k: int| 0 <= k < i ==> out@[k] == spec_unscramble(data@)[k],
        decreases data@.len() - i,
    {
        out.push(data[i] ^ mask[j]);
        i = i + 1;
        j = if j == 6 { 0 } else { j + 1 };
    }
    assert(out@ =~= spec_unscramble(data@));
    Ok(out)
}

/// Unscrambling twice gives back the original frame: the transform is an
/// involution.
pub proof fn lemma_unscramble_involution(b: Seq<u8>)
    requires
        b.len() >= 8,
    ensures
        spec_unscramble(spec_unscramble(b)) == b,
{
    let once = spec_unscramble(b);
    let twice = spec_unscramble(once);
    assert forall|i: int| 0 <= i < b.len() implies twice[i] == b[i] by {
        if i >= 8 {
            let k = keystream()[(i - 8) % 7];
            let x = b[i];
            assert((x ^ k) ^ k == x) by (bit_vector);
        }
    }
    assert(twice =~= b);
}

/// Unscrambling preserves the 8-byte header and the length.
pub proof fn lemma_unscramble_preserves_header(b: Seq<u8>)
    requires
        b.len() >= 8,
    ensures
        spec_unscramble(b).subrange(0, 8) == b.subrange(0, 8),
        spec_unscramble(b).len() == b.len(),
{
    assert(spec_unscramble(b).subrange(0, 8) =~= b.subrange(0, 8));
}

/// Every body byte of the output is the input byte XORed with the
/// keystream byte at its body position.
pub proof fn lemma_unscramble_keystream(b: Seq<u8>, i: int)
    requires
        8 <= i < b.len(),
    ensures
        spec_unscramble(b)[i] == b[i] ^ keystream()[(i - 8) % 7],
{
}

/// Each byte widened to the Unicode code point of the same value
/// (Latin-1 widening).
pub open spec fn latin1(b: Seq<u8>) -> Seq<char> {
    b.map_values(|x: u8| x as char)
}

/// Interprets every byte as the Unicode code point of the same value and
/// returns the resulting string; non-printable bytes pass through.
pub fn hex_bytes_to_ascii(hex_bytes: &[u8]) -> (r: String)
    ensures
        r@ == latin1(hex_bytes@),
{
    let mut out = String::new();
    let mut i: usize = 0;
    while i < hex_bytes.len()
        invariant
            i <= hex_bytes@.len(),
            out@ =~= latin1(hex_bytes@.take(i as int)),
        decreases hex_bytes@.len() - i,
    {
        crate::text::push_char(&mut out, hex_bytes[i] as char);
        assert(out@ =~= latin1(hex_bytes@.take(i + 1 as int)));
        i = i + 1;
    }
    proof {
        assert(hex_bytes@.take(hex_bytes@.len() as int) =~= hex_bytes@);
    }
    out
}

/// Whether the character is a hex digit, upper or lower case.
pub open spec fn is_hex_digit(c: char) -> bool {
    48 <= c as u32 <= 57 || 97 <= c as u32 <= 102 || 65 <= c as u32 <= 70
}

/// The value of a hex digit; meaningful only when `is_hex_digit` holds.
pub open spec fn hex_val(c: char) -> u8 {
    if 48 <= c as u32 <= 57 {
        (c as u32 - 48) as u8
    } else if 97 <= c as u32 <= 102 {
        (c as u32 - 87) as u8
    } else {
        (c as u32 - 55) as u8
    }
}

/// Whether the whole string consists of hex digits.
pub open spec fn all_hex_digits(s: Seq<char>) -> bool {
    forall|i: int| 0 <= i < s.len() ==> is_hex_digit(#[trigger] s[i])
}

/// The bytes encoded by an even-length string of hex digits, two digits
/// per byte, high nibble first.
pub open spec fn hex_decoded(s: Seq<char>) -> Seq<u8> {
    Seq::new(
        s.len() / 2,
        |i: int| (hex_val(s[2 * i]) * 16 + hex_val(s[2 * i + 1])) as u8,
    )
}

/// The lower-case hex digit for a nibble; meaningful only for values
/// below 16.
pub open spec fn hex_digit_char(n: u8) -> char {
    if n == 0 { '0' } else if n == 1 { '1' } else if n == 2 { '2' } else if n == 3 { '3' }
    else if n == 4 { '4' } else if n == 5 { '5' } else if n == 6 { '6' } else if n == 7 { '7' }
    else if n == 8 { '8' } else if n == 9 { '9' } else if n == 10 { 'a' } else if n == 11 { 'b' }
    else if n == 12 { 'c' } else if n == 13 { 'd' } else if n == 14 { 'e' } else { 'f' }
}

/// The hex string for a byte sequence, two lower-case digits per byte.
pub open spec fn hex_encoded(b: Seq<u8>) -> Seq<char> {
    Seq::new(
        2 * b.len(),
        |i: int| if i % 2 == 0 { hex_digit_char(b[i / 2] / 16) } else { hex_digit_char(b[i / 2] % 16) },
    )
}

/// The value of a hex digit character, or `None` where the character is
/// no hex digit.
fn hex_digit_value(c: char) -> (r: Option<u8>)
    ensures
        r matches Some(v) ==> is_hex_digit(c) && v == hex_val(c) && v < 16,
        r is None ==> !is_hex_digit(c),
{
    let u = c as u32;
    if 48 <= u && u <= 57 {
        Some((u - 48) as u8)
    } else if 97 <= u && u <= 102 {
        Some((u - 87) as u8)
    } else if 65 <= u && u <= 70 {
        Some((u - 55) as u8)
    } else {
        None
    }
}

/// Parses an even-length string of hex digits into the encoded bytes;
/// rejects odd length and non-hex digits.
pub fn hex_to_bytes(s: &str) -> (r: Result<Vec<u8>, DecodeError>)
    ensures
        r matches Ok(v) ==> s@.len() % 2 == 0 && all_hex_digits(s@) && v@ == hex_decoded(s@),
        r matches Err(e) ==> (e is BadHex && (s@.len() % 2 != 0 || !all_hex_digits(s@))),
{
    let n = s.unicode_len();
    if n % 2 != 0 {
        return Err(DecodeError::BadHex);
    }
    let mut out: Vec<u8> = Vec::new();
    let mut i: usize = 0;
    while i < n
        invariant
            i <= n,
            i % 2 == 0,
            n % 2 == 0,
            n == s@.len(),
            forall|k: int| 0 <= k < i ==> is_hex_digit(#[trigger] s@[k]),
            out@.len() == i / 2,
            forall|k: int| 0 <= k < i / 2 ==> out@[k] == hex_decoded(s@)[k],
        decreases n - i,
    {
        let hi = match hex_digit_value(s.get_char(i)) {
            Some(v) => v,
            None => { return Err(DecodeError::BadHex); },
        };
        let lo = match hex_digit_value(s.get_char(i + 1)) {
            Some(v) => v,
            None => { return Err(DecodeError::BadHex); },
        };
        out.push(hi * 16 + lo);
        i = i + 2;
    }
    proof {
        assert(out@ =~= hex_decoded(s@));
    }
    Ok(out)
}

/// The lower-case hex digit character for a nibble.
fn nibble_char(n: u8) -> (r: char)
    requires
        n < 16,
    ensures
        r == hex_digit_char(n),
{
    match n {
        0 => '0', 1 => '1', 2 => '2', 3 => '3',
        4 => '4', 5 => '5', 6 => '6', 7 => '7',
        8 => '8', 9 => '9', 10 => 'a', 11 => 'b',
        12 => 'c', 13 => 'd', 14 => 'e', _ => 'f',
    }
}

/// Renders a byte sequence as a string of hex digits, two lower-case
/// digits per byte: the inverse of `hex_to_bytes`.
pub fn hex_bytes_to_hex(b: &[u8]) -> (r: String)
    ensures
        r@ == hex_encoded(b@),
{
    let mut out = String::new();
    let mut i: usize = 0;
    while i < b.len()
        invariant
            i <= b@.len(),
            out@.len() == 2 * i,
            forall|k: int| 0 <= k < 2 * i ==> out@[k] == hex_encoded(b@)[k],
        decreases b@.len() - i,
    {
        let x = b[i];
        let hi = x / 16;
        let lo = x % 16;
        crate::text::push_char(&mut out, nibble_char(hi));
        crate::text::push_char(&mut out, nibble_char(lo));
        i = i + 1;
    }
    proof {
        assert(out@ =~= hex_encoded(b@));
    }
    out
}

/// A hex digit character always parses back to the nibble it was made
/// from.
proof fn lemma_hex_digit_char_val(n: u8)
    requires
        n < 16,
    ensures
        is_hex_digit(hex_digit_char(n)),
        hex_val(hex_digit_char(n)) == n,
{
}

/// Hex round trip: parsing the hex string of a byte sequence gives back
/// the bytes.
pub proof fn lemma_hex_round_trip(b: Seq<u8>)
    ensures
        hex_encoded(b).len() % 2 == 0,
        all_hex_digits(hex_encoded(b)),
        hex_decoded(hex_encoded(b)) == b,
{
    let s = hex_encoded(b);
    assert forall|i: int| 0 <= i < s.len() implies is_hex_digit(#[trigger] s[i]) by {
        lemma_hex_digit_char_val(if i % 2 == 0 { b[i / 2] / 16 } else { b[i / 2] % 16 });
    }
    assert forall|i: int| 0 <= i < b.len() implies hex_decoded(s)[i] == b[i] by {
        lemma_hex_digit_char_val(b[i] / 16);
        lemma_hex_digit_char_val(b[i] % 16);
        assert(s[2 * i] == hex_digit_char(b[i] / 16));
        assert(s[2 * i + 1] == hex_digit_char(b[i] % 16));
        assert(hex_val(s[2 * i]) * 16 + hex_val(s[2 * i + 1]) == b[i]);
    }
    assert(hex_decoded(s) =~= b);
}

} // verus!
