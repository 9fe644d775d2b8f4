//! Decoding one schema fragment out of a Data4 payload body.

use vstd::prelude::*;

use crate::data::{Datatype, GrowattV6EnergyFragment};
use crate::error::FragmentError;

verus! {

/// 256 to the `n`.
pub open spec fn pow256(n: nat) -> nat
    decreases n,
{
    if n == 0 {
        1
    } else {
        256 * pow256((n - 1) as nat)
    }
}

/// The big-endian value of a byte sequence; a sequence shorter than four
/// bytes reads as if zero-extended at the high end.
pub open spec fn spec_be_value(b: Seq<u8>) -> nat
    decreases b.len(),
{
    if b.len() == 0 {
        0
    } else {
        spec_be_value(b.drop_last()) * 256 + b.last() as nat
    }
}

/// A big-endian value is bounded by 256 to the byte count.
pub proof fn lemma_be_value_bound(b: Seq<u8>)
    ensures
        spec_be_value(b) < pow256(b.len()),
    decreases b.len(),
{
    if b.len() > 0 {
        lemma_be_value_bound(b.drop_last());
    }
}

/// Reads at most four bytes as a big-endian unsigned value, zero-extended
/// at the high end.
pub fn be_u32_padded(slice: &[u8]) -> (r: u32)
    requires
        slice@.len() <= 4,
    ensures
        r as nat == spec_be_value(slice@),
{
    let mut acc: u32 = 0;
    let mut i: usize = 0;
    proof {
        assert(slice@.take(0) =~= Seq::<u8>::empty());
    }
    while i < slice.len()
        invariant
            i <= slice@.len() <= 4,
            acc as nat == spec_be_value(slice@.take(i as int)),
        decreases slice@.len() - i,
    {
        proof {
            lemma_be_value_bound(slice@.take(i as int));
            reveal_with_fuel(pow256, 5);
            assert(pow256(3) == 16777216);
            assert(slice@.take(i + 1).drop_last() =~= slice@.take(i as int));
        }
        acc = acc * 256 + (slice[i] as u32);
        i = i + 1;
    }
    proof {
        assert(slice@.take(slice@.len() as int) =~= slice@);
    }
    acc
}

/// The divisor of a `Float` fragment: its `fraction`, with absent or
/// zero meaning one.
pub open spec fn spec_divisor(frag: GrowattV6EnergyFragment) -> nat {
    match frag.fraction {
        Some(f) => if f == 0 { 1nat } else { f as nat },
        None => 1nat,
    }
}

/// The stringified value of one fragment against a payload body, or the
/// error that makes the decoder skip it: the slice must lie inside the
/// body, a date needs six in-range components, and a numeric value is at
/// most four bytes wide.
pub open spec fn spec_fragment_value(frag: GrowattV6EnergyFragment, body: Seq<u8>) -> Result<
    Seq<char>,
    FragmentError,
> {
    let off = frag.offset as int;
    let len = frag.bytes_len as int;
    if off + len > body.len() {
        Err(FragmentError::SliceOutOfRange)
    } else {
        let slice = body.subrange(off, off + len);
        match frag.fragment_type {
            Datatype::String => Ok(crate::text::alnum_filtered(crate::codec::latin1(slice))),
            Datatype::Date => {
                if len < 6 {
                    Err(FragmentError::SliceOutOfRange)
                } else if crate::time::valid_datetime(
                    2000 + slice[0],
                    slice[1] as int,
                    slice[2] as int,
                    slice[3] as int,
                    slice[4] as int,
                    slice[5] as int,
                ) {
                    Ok(
                        crate::time::datetime_chars(
                            2000 + slice[0],
                            slice[1] as int,
                            slice[2] as int,
                            slice[3] as int,
                            slice[4] as int,
                            slice[5] as int,
                        ),
                    )
                } else {
                    Err(FragmentError::BadDate)
                }
            },
            Datatype::Integer => {
                if len > 4 {
                    Err(FragmentError::SliceOutOfRange)
                } else {
                    Ok(crate::numfmt::dec_digits(spec_be_value(slice)))
                }
            },
            Datatype::Float => {
                if len > 4 {
                    Err(FragmentError::SliceOutOfRange)
                } else {
                    Ok(crate::numfmt::scaled_decimal(spec_be_value(slice), spec_divisor(frag)))
                }
            },
        }
    }
}

/// Decodes one fragment of the payload body into its stringified value.
/// A fragment that lies outside the body, a numeric fragment wider than
/// four bytes, or a date with out-of-range components yields the error
/// instead; the caller skips such a fragment and carries on.
pub fn fragment_value(frag: &GrowattV6EnergyFragment, body: &[u8]) -> (r: Result<
    String,
    FragmentError,
>)
    ensures
        r matches Ok(s) ==> spec_fragment_value(*frag, body@) matches Ok(v) && s@ == v,
        r matches Err(e) ==> spec_fragment_value(*frag, body@) matches Err(e2) && e == e2,
{
    let off = frag.offset as u64;
    let len = frag.bytes_len as u64;
    if off + len > body.len() as u64 {
        return Err(FragmentError::SliceOutOfRange);
    }
    let start = frag.offset as usize;
    let end = start + frag.bytes_len as usize;
    let slice: &[u8] = &body[start..end];
    match frag.fragment_type {
        Datatype::String => {
            let ascii = crate::codec::hex_bytes_to_ascii(slice);
            Ok(crate::text::filter_alphanumeric(ascii.as_str()))
        },
        Datatype::Date => {
            if slice.len() < 6 {
                return Err(FragmentError::SliceOutOfRange);
            }
            let year: u16 = 2000 + (slice[0] as u16);
            match crate::time::format_datetime(
                year,
                slice[1],
                slice[2],
                slice[3],
                slice[4],
                slice[5],
            ) {
                Some(s) => Ok(s),
                None => Err(FragmentError::BadDate),
            }
        },
        Datatype::Integer => {
            if slice.len() > 4 {
                return Err(FragmentError::SliceOutOfRange);
            }
            let value = be_u32_padded(slice);
            Ok(crate::numfmt::u64_to_decimal(value as u64))
        },
        Datatype::Float => {
            if slice.len() > 4 {
                return Err(FragmentError::SliceOutOfRange);
            }
            let value = be_u32_padded(slice);
            let divisor: u32 = match frag.fraction {
                Some(f) => f,
                None => 1,
            };
            Ok(crate::numfmt::render_scaled(value, divisor))
        },
    }
}

} // verus!
