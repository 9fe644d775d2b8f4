//! Decoding the mixed binary + CSV meter frames.
//!
//! A meter frame is the 8-byte header, a 30-byte serial-number region,
//! 10 reserved bytes, an ASCII body of comma-separated values, and a
//! trailing 2-byte CRC that is kept in `raw` but not validated.

use vstd::prelude::*;
use vstd::string::StringExecFns;

use crate::data_message::DataMessage;
use crate::error::DecodeError;
use crate::message_type::MessageType;

verus! {

/// The fixed key list the comma-separated values are zipped with.
pub open spec fn spec_meter_key(i: int) -> Seq<char> {
    if i == 0 { "active_energy"@ } else if i == 1 { "reactive_energy"@ }
    else if i == 2 { "active_power_l1"@ } else if i == 3 { "active_power_l2"@ }
    else if i == 4 { "active_power_l3"@ } else if i == 5 { "reactive_power_l1"@ }
    else if i == 6 { "reactive_power_l2"@ } else if i == 7 { "reactive_power_l3"@ }
    else if i == 8 { "apparent_power_l1"@ } else if i == 9 { "apparent_power_l2"@ }
    else if i == 10 { "apparent_power_l3"@ } else if i == 11 { "power_factor_l1"@ }
    else if i == 12 { "power_factor_l2"@ } else if i == 13 { "power_factor_l3"@ }
    else if i == 14 { "voltage_l1"@ } else if i == 15 { "voltage_l2"@ }
    else if i == 16 { "voltage_l3"@ } else if i == 17 { "current_l1"@ }
    else if i == 18 { "current_l2"@ } else if i == 19 { "current_l3"@ }
    else if i == 20 { "active_power"@ } else if i == 21 { "reactive_power"@ }
    else if i == 22 { "apparent_power"@ } else if i == 23 { "power_factor"@ }
    else if i == 24 { "frequency"@ } else if i == 25 { "posi_active_power"@ }
    else if i == 26 { "reverse_active_power"@ } else if i == 27 { "posi_reactive_power"@ }
    else if i == 28 { "reverse_reactive_power"@ } else if i == 29 { "apparent_energy"@ }
    else if i == 30 { "total_active_energy_l1"@ } else if i == 31 { "total_active_energy_l2"@ }
    else if i == 32 { "total_active_energy_l3"@ } else if i == 33 { "total_reactive_energy_l1"@ }
    else if i == 34 { "total_reactive_energy_l2"@ } else if i == 35 { "total_reactive_energy_l3"@ }
    else if i == 36 { "total_energy"@ } else if i == 37 { "l1_voltage_2"@ }
    else if i == 38 { "l2_voltage_3"@ } else { "l3_voltage_1"@ }
}

/// The key at an index of the fixed meter key list.
pub fn meter_key(i: usize) -> (r: &'static str)
    requires
        i < 40,
    ensures
        r@ == spec_meter_key(i as int),
{
    match i {
        0 => "active_energy", 1 => "reactive_energy",
        2 => "active_power_l1", 3 => "active_power_l2",
        4 => "active_power_l3", 5 => "reactive_power_l1",
        6 => "reactive_power_l2", 7 => "reactive_power_l3",
        8 => "apparent_power_l1", 9 => "apparent_power_l2",
        10 => "apparent_power_l3", 11 => "power_factor_l1",
        12 => "power_factor_l2", 13 => "power_factor_l3",
        14 => "voltage_l1", 15 => "voltage_l2",
        16 => "voltage_l3", 17 => "current_l1",
        18 => "current_l2", 19 => "current_l3",
        20 => "active_power", 21 => "reactive_power",
        22 => "apparent_power", 23 => "power_factor",
        24 => "frequency", 25 => "posi_active_power",
        26 => "reverse_active_power", 27 => "posi_reactive_power",
        28 => "reverse_reactive_power", 29 => "apparent_energy",
        30 => "total_active_energy_l1", 31 => "total_active_energy_l2",
        32 => "total_active_energy_l3", 33 => "total_reactive_energy_l1",
        34 => "total_reactive_energy_l2", 35 => "total_reactive_energy_l3",
        36 => "total_energy", 37 => "l1_voltage_2",
        38 => "l2_voltage_3", _ => "l3_voltage_1",
    }
}

/// The byte sequence split at every comma, empty pieces included: one
/// more piece than there are commas, in order.
pub open spec fn spec_split_commas(s: Seq<u8>) -> Seq<Seq<u8>>
    decreases s.len(),
{
    if s.len() == 0 {
        seq![Seq::<u8>::empty()]
    } else {
        let pre = spec_split_commas(s.drop_last());
        if s.last() == 0x2Cu8 {
            pre.push(Seq::empty())
        } else {
            pre.update(pre.len() - 1, pre.last().push(s.last()))
        }
    }
}

/// A split always has at least one piece.
pub proof fn lemma_split_commas_nonempty(s: Seq<u8>)
    ensures
        spec_split_commas(s).len() >= 1,
    decreases s.len(),
{
    if s.len() > 0 {
        lemma_split_commas_nonempty(s.drop_last());
    }
}

/// Splits a byte sequence on commas.
pub fn split_commas(s: &[u8]) -> (r: Vec<Vec<u8>>)
    ensures
        r.deep_view() == spec_split_commas(s@),
{
    let mut done: Vec<Vec<u8>> = Vec::new();
    let mut current: Vec<u8> = Vec::new();
    let mut i: usize = 0;
    proof {
        assert(spec_split_commas(s@.take(0)) =~~= seq![Seq::<u8>::empty()]);
        assert(done.deep_view().push(current.deep_view()) =~~= spec_split_commas(s@.take(0)));
    }
    while i < s.len()
        invariant
            i <= s@.len(),
            done.deep_view().push(current.deep_view()) == spec_split_commas(s@.take(i as int)),
        decreases s@.len() - i,
    {
        let ghost pre = spec_split_commas(s@.take(i as int));
        proof {
            lemma_split_commas_nonempty(s@.take(i as int));
            assert(s@.take(i + 1).drop_last() =~= s@.take(i as int));
            assert(s@.take(i + 1).last() == s@[i as int]);
        }
        let b = s[i];
        if b == 0x2C {
            done.push(current);
            current = Vec::new();
            proof {
                assert(done.deep_view().push(current.deep_view()) =~~= pre.push(Seq::empty()));
            }
        } else {
            current.push(b);
            proof {
                assert(done.deep_view().push(current.deep_view()) =~~= pre.update(
                    pre.len() - 1,
                    pre.last().push(b),
                ));
            }
        }
        i = i + 1;
    }
    done.push(current);
    proof {
        assert(s@.take(s@.len() as int) =~= s@);
    }
    done
}

/// The nonempty pieces of the comma split.
pub open spec fn spec_meter_tokens(body: Seq<u8>) -> Seq<Seq<u8>> {
    spec_split_commas(body).filter(|t: Seq<u8>| t.len() > 0)
}

/// The decoded meter fields: the nonempty comma-separated values of the
/// ASCII body, in order, zipped with the fixed key list, at most forty.
pub open spec fn spec_meter_fields(body: Seq<u8>) -> Seq<(Seq<char>, Seq<char>)> {
    let tokens = spec_meter_tokens(body);
    let count = if tokens.len() < 40 {
        tokens.len() as int
    } else {
        40
    };
    Seq::new(count as nat, |i: int| (spec_meter_key(i), crate::codec::latin1(tokens[i])))
}

/// The meter serial number: the alphanumeric characters of the 30-byte
/// region after the header.
pub open spec fn spec_meter_serial(bytes: Seq<u8>) -> Seq<char> {
    crate::text::alnum_filtered(crate::codec::latin1(bytes.subrange(8, 38)))
}

impl DataMessage {
    /// Decode of a meter frame: the serial number from the 30 bytes
    /// after the header, then, past 10 reserved bytes, comma-separated
    /// ASCII values zipped with the fixed key list; values beyond the
    /// fortieth are dropped. The whole frame, CRC included, is kept as
    /// `raw`. A frame too short to hold the regions is rejected.
    pub fn meter_data(original_bytes: &[u8], now_micros: i64) -> (r: Result<Self, DecodeError>)
        ensures
            original_bytes@.len() >= 50 ==> (r matches Ok(m) && {
                &&& m.raw@ == original_bytes@
                &&& m.header@ == original_bytes@.subrange(0, 8)
                &&& m.data_type == MessageType::MeterData
                &&& m.data.deep_view() == spec_meter_fields(
                    original_bytes@.subrange(48, original_bytes@.len() - 2),
                )
                &&& m.time_micros == now_micros
                &&& m.serial_number.deep_view() == Some(spec_meter_serial(original_bytes@))
            }),
            original_bytes@.len() < 50 ==> (r matches Err(e) && e is ShortFrame),
    {
        if original_bytes.len() < 50 {
            return Err(DecodeError::ShortFrame);
        }
        let header: Vec<u8> = vstd::slice::slice_to_vec(&original_bytes[0..8]);
        let serial_region: &[u8] = &original_bytes[8..38];
        let serial_ascii = crate::codec::hex_bytes_to_ascii(serial_region);
        let serial = crate::text::filter_alphanumeric(serial_ascii.as_str());
        let body: &[u8] = &original_bytes[48..original_bytes.len() - 2];
        let pieces = split_commas(body);
        let ghost all_tokens = spec_meter_tokens(body@);
        let mut tokens: Vec<Vec<u8>> = Vec::new();
        let mut i: usize = 0;
        proof {
            reveal(Seq::filter);
            assert(pieces.deep_view().take(0) =~~= Seq::<Seq<u8>>::empty());
            assert(tokens.deep_view() =~~= pieces.deep_view().take(0).filter(
                |t: Seq<u8>| t.len() > 0,
            ));
        }
        while i < pieces.len()
            invariant
                i <= pieces@.len(),
                pieces.deep_view() == spec_split_commas(body@),
                tokens.deep_view() == pieces.deep_view().take(i as int).filter(
                    |t: Seq<u8>| t.len() > 0,
                ),
            decreases pieces@.len() - i,
        {
            proof {
                reveal(Seq::filter);
                let pv = pieces.deep_view();
                assert(pv.take(i + 1).drop_last() =~= pv.take(i as int));
                assert(pv.take(i + 1).last() == pv[i as int]);
            }
            if pieces[i].len() > 0 {
                let piece = vstd::slice::slice_to_vec(pieces[i].as_slice());
                tokens.push(piece);
            }
            proof {
                assert(tokens.deep_view() =~~= pieces.deep_view().take(i + 1).filter(
                    |t: Seq<u8>| t.len() > 0,
                ));
            }
            i = i + 1;
        }
        proof {
            assert(pieces.deep_view().take(pieces@.len() as int) =~~= pieces.deep_view());
        }
        let count = if tokens.len() < 40 {
            tokens.len()
        } else {
            40
        };
        let mut data: Vec<(String, String)> = Vec::new();
        let mut k: usize = 0;
        proof {
            assert(data.deep_view() =~~= spec_meter_fields(body@).take(0));
        }
        while k < count
            invariant
                k <= count,
                count == if all_tokens.len() < 40 { all_tokens.len() as int } else { 40 },
                tokens.deep_view() == all_tokens,
                all_tokens == spec_meter_tokens(body@),
                data.deep_view() == spec_meter_fields(body@).take(k as int),
            decreases count - k,
        {
            let key = String::from_str(meter_key(k));
            let value = crate::codec::hex_bytes_to_ascii(tokens[k].as_slice());
            let ghost pre_data = data.deep_view();
            data.push((key, value));
            proof {
                let tv = tokens@[k as int];
                assert(tv.deep_view() =~= tv@);
                assert(tokens.deep_view()[k as int] == all_tokens[k as int]);
                assert(value@ == crate::codec::latin1(all_tokens[k as int]));
                assert(spec_meter_fields(body@)[k as int] == (
                    spec_meter_key(k as int),
                    crate::codec::latin1(all_tokens[k as int]),
                ));
                assert(data.deep_view() =~~= pre_data.push((key@, value@)));
                assert(spec_meter_fields(body@).take(k + 1) =~~= spec_meter_fields(body@).take(
                    k as int,
                ).push(spec_meter_fields(body@)[k as int]));
                assert(data.deep_view() =~~= spec_meter_fields(body@).take(k + 1));
            }
            k = k + 1;
        }
        proof {
            assert(spec_meter_fields(body@).take(count as int) =~~= spec_meter_fields(body@));
            assert(body@ =~= original_bytes@.subrange(48, original_bytes@.len() - 2));
            assert(original_bytes@.subrange(8, 38) =~= serial_region@);
        }
        Ok(
            DataMessage {
                raw: vstd::slice::slice_to_vec(original_bytes),
                header,
                data_type: MessageType::MeterData,
                data,
                time_micros: now_micros,
                serial_number: Some(serial),
            },
        )
    }
}

} // verus!
