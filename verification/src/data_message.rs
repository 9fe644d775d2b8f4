//! The decoded form of one framed message, and the Data4 full decode.

use vstd::prelude::*;
use vstd::string::StringExecFns;

use crate::data::GrowattV6EnergyFragment;
use crate::error::DecodeError;
use crate::message_type::MessageType;

verus! {

/// One decoded frame: the whole frame's bytes, the clear header, the
/// classified type, the decoded key/value fields in schema order, the
/// wall-clock micros at decode, and the serial number where a fragment
/// carries one.
pub struct DataMessage {
    pub raw: Vec<u8>,
    pub header: Vec<u8>,
    pub data_type: MessageType,
    pub data: Vec<(String, String)>,
    pub time_micros: i64,
    pub serial_number: Option<String>,
}

/// Whether some entry of the field list has the key.
pub open spec fn spec_has_key(fields: Seq<(Seq<char>, Seq<char>)>, key: Seq<char>) -> bool {
    exists|i: int| 0 <= i < fields.len() && fields[i].0 == key
}

/// The index of the first entry with the key; meaningful only when
/// `spec_has_key` holds.
pub open spec fn spec_first_key_index(fields: Seq<(Seq<char>, Seq<char>)>, key: Seq<char>) -> int {
    choose|i: int|
        0 <= i < fields.len() && fields[i].0 == key && (forall|j: int|
            0 <= j < i ==> fields[j].0 != key)
}

/// Inserting into the field list: a fresh key goes to the end, a known
/// key replaces the value of its first entry in place.
pub open spec fn spec_upsert(
    fields: Seq<(Seq<char>, Seq<char>)>,
    key: Seq<char>,
    value: Seq<char>,
) -> Seq<(Seq<char>, Seq<char>)> {
    if spec_has_key(fields, key) {
        fields.update(spec_first_key_index(fields, key), (key, value))
    } else {
        fields.push((key, value))
    }
}

/// A position that matches the key with no earlier match is the one
/// `spec_first_key_index` picks.
proof fn lemma_first_key_at(fields: Seq<(Seq<char>, Seq<char>)>, key: Seq<char>, i: int)
    requires
        0 <= i < fields.len(),
        fields[i].0 == key,
        forall|j: int| 0 <= j < i ==> fields[j].0 != key,
    ensures
        spec_has_key(fields, key),
        spec_first_key_index(fields, key) == i,
{
    assert(exists|x: int|
        0 <= x < fields.len() && fields[x].0 == key && (forall|j: int|
            0 <= j < x ==> fields[j].0 != key));
    let ic = spec_first_key_index(fields, key);
    assert(0 <= ic < fields.len() && fields[ic].0 == key && (forall|j: int|
        0 <= j < ic ==> fields[j].0 != key));
    if ic < i {
        assert(fields[ic].0 != key);
    }
    if ic > i {
        assert(fields[i].0 != key);
    }
}

/// Some match below the bound has no match before it.
proof fn lemma_exists_first_below(fields: Seq<(Seq<char>, Seq<char>)>, key: Seq<char>, n: int)
    requires
        0 <= n <= fields.len(),
        exists|x: int| 0 <= x < n && fields[x].0 == key,
    ensures
        exists|x: int|
            0 <= x < fields.len() && fields[x].0 == key && (forall|j: int|
                0 <= j < x ==> fields[j].0 != key),
    decreases n,
{
    let w = choose|x: int| 0 <= x < n && fields[x].0 == key;
    if exists|x: int| 0 <= x < w && fields[x].0 == key {
        lemma_exists_first_below(fields, key, w);
    } else {
        assert(0 <= w < fields.len() && fields[w].0 == key && (forall|j: int|
            0 <= j < w ==> fields[j].0 != key));
    }
}

/// Wherever the key occurs at all, `spec_first_key_index` names its
/// first occurrence.
proof fn lemma_first_key_index_properties(fields: Seq<(Seq<char>, Seq<char>)>, key: Seq<char>)
    requires
        spec_has_key(fields, key),
    ensures
        ({
            let ic = spec_first_key_index(fields, key);
            0 <= ic < fields.len() && fields[ic].0 == key && (forall|j: int|
                0 <= j < ic ==> fields[j].0 != key)
        }),
{
    lemma_exists_first_below(fields, key, fields.len() as int);
}

/// Inserts a key/value pair as `spec_upsert` says.
fn upsert_field(data: &mut Vec<(String, String)>, key: String, value: String)
    ensures
        final(data).deep_view() == spec_upsert(old(data).deep_view(), key@, value@),
{
    let n = data.len();
    let mut i: usize = 0;
    while i < n
        invariant
            n == data.len(),
            *data == *old(data),
            i <= n,
            forall|j: int| 0 <= j < i ==> #[trigger] data.deep_view()[j].0 != key@,
        decreases n - i,
    {
        if data[i].0 == key {
            let ghost fv = data.deep_view();
            proof {
                assert(fv[i as int] == (data@[i as int].0@, data@[i as int].1@));
                lemma_first_key_at(fv, key@, i as int);
            }
            data[i] = (key, value);
            proof {
                assert(data.deep_view() =~= spec_upsert(fv, key@, value@));
            }
            return;
        }
        i = i + 1;
    }
    proof {
        assert(!spec_has_key(data.deep_view(), key@));
    }
    data.push((key, value));
    proof {
        assert(data.deep_view() =~= spec_upsert(old(data).deep_view(), key@, value@));
    }
}

/// One log line per decoded field, in order.
pub open spec fn spec_field_lines(fields: Seq<(Seq<char>, Seq<char>)>) -> Seq<char>
    decreases fields.len(),
{
    if fields.len() == 0 {
        Seq::empty()
    } else {
        spec_field_lines(fields.drop_last()) + "    "@ + fields.last().0 + ": "@
            + fields.last().1 + "\n"@
    }
}

/// The listing head: everything of `spec_describe` before the field
/// lines.
pub open spec fn spec_describe_head(m: &DataMessage) -> Seq<char> {
    "Data Message:\n  Type: "@ + crate::message_type::spec_type_name(m.data_type)
        + "\n  Time: "@ + crate::numfmt::dec_digits_signed(m.time_micros as int)
        + "\n  Serial Number: "@ + (match m.serial_number {
        Some(s) => "Some(\""@ + s@ + "\")"@,
        None => "None"@,
    }) + "\n  Data:\n"@
}

/// The multi-line log listing of a message.
pub open spec fn spec_describe(m: &DataMessage) -> Seq<char> {
    spec_describe_head(m) + spec_field_lines(m.data.deep_view())
}

/// The fields and the serial number after decoding a prefix of the
/// schema against the body: fragments that fail are skipped; a `String`
/// fragment named `Inverter SN` also sets the serial number.
pub open spec fn spec_data4_fold(frags: Seq<GrowattV6EnergyFragment>, body: Seq<u8>) -> (
    Seq<(Seq<char>, Seq<char>)>,
    Option<Seq<char>>,
)
    decreases frags.len(),
{
    if frags.len() == 0 {
        (Seq::empty(), None::<Seq<char>>)
    } else {
        let acc = spec_data4_fold(frags.drop_last(), body);
        let frag = frags.last();
        match crate::fragment::spec_fragment_value(frag, body) {
            Ok(v) => (
                spec_upsert(acc.0, frag.name@, v),
                if frag.fragment_type is String && frag.name@ == "Inverter SN"@ {
                    Some(v)
                } else {
                    acc.1
                },
            ),
            Err(_) => acc,
        }
    }
}

/// Whether no two entries of the field list share a key.
pub open spec fn unique_keys(fields: Seq<(Seq<char>, Seq<char>)>) -> bool {
    forall|i: int, j: int| 0 <= i < j < fields.len() ==> fields[i].0 != fields[j].0
}

/// Upserting reaches exactly the keys that were there, plus the one
/// inserted.
proof fn lemma_upsert_keys(
    fields: Seq<(Seq<char>, Seq<char>)>,
    n: Seq<char>,
    v: Seq<char>,
    k: Seq<char>,
)
    ensures
        spec_has_key(spec_upsert(fields, n, v), k) <==> (spec_has_key(fields, k) || k == n),
{
    let out = spec_upsert(fields, n, v);
    if spec_has_key(fields, n) {
        lemma_first_key_index_properties(fields, n);
        let ic = spec_first_key_index(fields, n);
        if spec_has_key(out, k) {
            let w = choose|i: int| 0 <= i < out.len() && out[i].0 == k;
            if w != ic {
                assert(fields[w].0 == k);
                assert(spec_has_key(fields, k));
            }
        }
        if k == n {
            assert(out[ic].0 == k);
            assert(spec_has_key(out, k));
        }
        if spec_has_key(fields, k) && k != n {
            let w = choose|i: int| 0 <= i < fields.len() && fields[i].0 == k;
            assert(w != ic);
            assert(out[w].0 == k);
            assert(spec_has_key(out, k));
        }
    } else {
        if spec_has_key(out, k) {
            let w = choose|i: int| 0 <= i < out.len() && out[i].0 == k;
            if w != fields.len() {
                assert(fields[w].0 == k);
                assert(spec_has_key(fields, k));
            }
        }
        if k == n {
            assert(out[fields.len() as int].0 == k);
            assert(spec_has_key(out, k));
        }
        if spec_has_key(fields, k) {
            let w = choose|i: int| 0 <= i < fields.len() && fields[i].0 == k;
            assert(out[w].0 == k);
            assert(spec_has_key(out, k));
        }
    }
}

/// Upserting keeps the keys distinct.
proof fn lemma_upsert_distinct(fields: Seq<(Seq<char>, Seq<char>)>, n: Seq<char>, v: Seq<char>)
    requires
        unique_keys(fields),
    ensures
        unique_keys(spec_upsert(fields, n, v)),
{
    let out = spec_upsert(fields, n, v);
    if spec_has_key(fields, n) {
        lemma_first_key_index_properties(fields, n);
        let ic = spec_first_key_index(fields, n);
        assert forall|i: int, j: int| 0 <= i < j < out.len() implies out[i].0 != out[j].0 by {
            if i == ic {
                assert(out[i].0 == fields[ic].0);
                assert(out[j].0 == fields[j].0);
            } else if j == ic {
                assert(out[i].0 == fields[i].0);
                assert(out[j].0 == fields[ic].0);
            } else {
                assert(out[i].0 == fields[i].0);
                assert(out[j].0 == fields[j].0);
            }
        }
    } else {
        assert forall|i: int, j: int| 0 <= i < j < out.len() implies out[i].0 != out[j].0 by {
            if j == fields.len() {
                assert(out[i].0 == fields[i].0);
                if out[i].0 == n {
                    assert(spec_has_key(fields, n));
                }
            } else {
                assert(out[i].0 == fields[i].0);
                assert(out[j].0 == fields[j].0);
            }
        }
    }
}

/// A name appears among the decoded fields exactly when some schema
/// fragment carries that name and decodes successfully: a fragment
/// that fails, out of range or with a bad date, leaves no field of its
/// own, and every fragment that decodes leaves one. Where two
/// fragments share a name, the successful one still yields the field.
pub proof fn lemma_data4_fold_keys(frags: Seq<GrowattV6EnergyFragment>, body: Seq<u8>, k: Seq<char>)
    ensures
        spec_has_key(spec_data4_fold(frags, body).0, k) <==> (exists|j: int|
            0 <= j < frags.len() && frags[j].name@ == k && crate::fragment::spec_fragment_value(
                #[trigger] frags[j],
                body,
            ) is Ok),
    decreases frags.len(),
{
    if frags.len() == 0 {
        assert(!spec_has_key(spec_data4_fold(frags, body).0, k));
    } else {
        let pre = frags.drop_last();
        let frag = frags.last();
        lemma_data4_fold_keys(pre, body, k);
        let acc = spec_data4_fold(pre, body);
        let fold = spec_data4_fold(frags, body);
        let rhs_pre = exists|j: int|
            0 <= j < pre.len() && pre[j].name@ == k && crate::fragment::spec_fragment_value(
                #[trigger] pre[j],
                body,
            ) is Ok;
        let rhs_full = exists|j: int|
            0 <= j < frags.len() && frags[j].name@ == k && crate::fragment::spec_fragment_value(
                #[trigger] frags[j],
                body,
            ) is Ok;
        if rhs_pre {
            let j = choose|j: int|
                0 <= j < pre.len() && pre[j].name@ == k && crate::fragment::spec_fragment_value(
                    #[trigger] pre[j],
                    body,
                ) is Ok;
            assert(frags[j] == pre[j]);
            assert(rhs_full);
        }
        match crate::fragment::spec_fragment_value(frag, body) {
            Ok(v) => {
                lemma_upsert_keys(acc.0, frag.name@, v, k);
                if k == frag.name@ {
                    assert(frags[frags.len() - 1].name@ == k);
                    assert(rhs_full);
                }
                if rhs_full && !rhs_pre && k != frag.name@ {
                    let j = choose|j: int|
                        0 <= j < frags.len() && frags[j].name@ == k
                            && crate::fragment::spec_fragment_value(
                            #[trigger] frags[j],
                            body,
                        ) is Ok;
                    assert(j < pre.len());
                    assert(pre[j] == frags[j]);
                    assert(rhs_pre);
                }
            },
            Err(_) => {
                assert(fold.0 == acc.0);
                if rhs_full && !rhs_pre {
                    let j = choose|j: int|
                        0 <= j < frags.len() && frags[j].name@ == k
                            && crate::fragment::spec_fragment_value(
                            #[trigger] frags[j],
                            body,
                        ) is Ok;
                    assert(j < pre.len());
                    assert(pre[j] == frags[j]);
                    assert(rhs_pre);
                }
            },
        }
    }
}

/// The decoded field list never carries a key twice: each decoded
/// name has exactly one field.
pub proof fn lemma_data4_fold_unique_keys(frags: Seq<GrowattV6EnergyFragment>, body: Seq<u8>)
    ensures
        unique_keys(spec_data4_fold(frags, body).0),
    decreases frags.len(),
{
    if frags.len() > 0 {
        let pre = frags.drop_last();
        let frag = frags.last();
        lemma_data4_fold_unique_keys(pre, body);
        let acc = spec_data4_fold(pre, body);
        match crate::fragment::spec_fragment_value(frag, body) {
            Ok(v) => {
                lemma_upsert_distinct(acc.0, frag.name@, v);
            },
            Err(_) => {},
        }
    }
}

impl DataMessage {
    /// Full decode of a Data4 frame that has already been unscrambled:
    /// every schema fragment is cut out of the body and stringified;
    /// fragments that fail are skipped and the rest of the message
    /// survives. The whole frame is kept as `raw`.
    pub fn data4(
        inverter_fragments: &Vec<GrowattV6EnergyFragment>,
        bytes: &[u8],
        now_micros: i64,
    ) -> (r: Result<Self, DecodeError>)
        ensures
            bytes@.len() >= 8 ==> (r matches Ok(m) && {
                let fold = spec_data4_fold(inverter_fragments@, bytes@.skip(8));
                &&& m.raw@ == bytes@
                &&& m.header@ == bytes@.subrange(0, 8)
                &&& m.data_type == MessageType::Data4
                &&& m.data.deep_view() == fold.0
                &&& m.time_micros == now_micros
                &&& m.serial_number.deep_view() == fold.1
            }),
            bytes@.len() < 8 ==> (r matches Err(e) && e is ShortFrame),
    {
        if bytes.len() < 8 {
            return Err(DecodeError::ShortFrame);
        }
        let header: Vec<u8> = vstd::slice::slice_to_vec(&bytes[0..8]);
        let body: &[u8] = &bytes[8..bytes.len()];
        proof {
            assert(body@ =~= bytes@.skip(8));
        }
        let mut data: Vec<(String, String)> = Vec::new();
        let mut serial_number: Option<String> = None;
        let n = inverter_fragments.len();
        let mut i: usize = 0;
        proof {
            assert(data.deep_view() =~= spec_data4_fold(inverter_fragments@.take(0), body@).0);
        }
        while i < n
            invariant
                n == inverter_fragments.len(),
                i <= n,
                body@ == bytes@.skip(8),
                data.deep_view() == spec_data4_fold(inverter_fragments@.take(i as int), body@).0,
                serial_number.deep_view() == spec_data4_fold(
                    inverter_fragments@.take(i as int),
                    body@,
                ).1,
            decreases n - i,
        {
            let frag = &inverter_fragments[i];
            proof {
                assert(inverter_fragments@.take(i + 1).drop_last() =~= inverter_fragments@.take(
                    i as int,
                ));
                assert(inverter_fragments@.take(i + 1).last() == inverter_fragments@[i as int]);
            }
            match crate::fragment::fragment_value(frag, body) {
                Ok(value) => {
                    let is_string = match frag.fragment_type {
                        crate::data::Datatype::String => true,
                        _ => false,
                    };
                    if is_string && frag.name.as_str().eq("Inverter SN") {
                        serial_number = Some(value.clone());
                    }
                    upsert_field(&mut data, frag.name.clone(), value);
                },
                Err(_) => {},
            }
            i = i + 1;
        }
        proof {
            assert(inverter_fragments@.take(n as int) =~= inverter_fragments@);
        }
        Ok(
            DataMessage {
                raw: vstd::slice::slice_to_vec(bytes),
                header,
                data_type: MessageType::Data4,
                data,
                time_micros: now_micros,
                serial_number,
            },
        )
    }

    /// Decode of a frame whose type carries no parsed fields: only the
    /// raw bytes, the header, the type and the timestamp are kept.
    pub fn placeholder(bytes: &[u8], message_type: MessageType, now_micros: i64) -> (r: Result<
        Self,
        DecodeError,
    >)
        ensures
            bytes@.len() >= 8 ==> (r matches Ok(m) && {
                &&& m.raw@ == bytes@
                &&& m.header@ == bytes@.subrange(0, 8)
                &&& m.data_type == message_type
                &&& m.data.deep_view() == Seq::<(Seq<char>, Seq<char>)>::empty()
                &&& m.time_micros == now_micros
                &&& m.serial_number is None
            }),
            bytes@.len() < 8 ==> (r matches Err(e) && e is ShortFrame),
    {
        if bytes.len() < 8 {
            return Err(DecodeError::ShortFrame);
        }
        let header: Vec<u8> = vstd::slice::slice_to_vec(&bytes[0..8]);
        let raw: Vec<u8> = vstd::slice::slice_to_vec(bytes);
        let data: Vec<(String, String)> = Vec::new();
        proof {
            assert(data.deep_view() =~= Seq::<(Seq<char>, Seq<char>)>::empty());
        }
        Ok(
            DataMessage {
                raw,
                header,
                data_type: message_type,
                data,
                time_micros: now_micros,
                serial_number: None,
            },
        )
    }

    /// The multi-line listing of a message, for logs: its type, its
    /// timestamp in epoch microseconds, its serial number and its
    /// decoded fields.
    pub fn describe(&self) -> (r: String)
        ensures
            r@ == spec_describe(self),
    {
        let mut out = String::new();
        out.append("Data Message:\n  Type: ");
        out.append(self.data_type.name());
        out.append("\n  Time: ");
        let time = crate::numfmt::i64_to_decimal(self.time_micros);
        out.append(time.as_str());
        out.append("\n  Serial Number: ");
        match &self.serial_number {
            Some(s) => {
                out.append("Some(\"");
                out.append(s.as_str());
                out.append("\")");
            },
            None => {
                out.append("None");
            },
        }
        out.append("\n  Data:\n");
        proof {
            assert(self.data.deep_view().take(0) =~= Seq::<(Seq<char>, Seq<char>)>::empty());
            assert(out@ =~= spec_describe_head(self) + spec_field_lines(
                self.data.deep_view().take(0),
            ));
        }
        let n = self.data.len();
        let mut i: usize = 0;
        while i < n
            invariant
                n == self.data.len(),
                i <= n,
                out@ == spec_describe_head(self) + spec_field_lines(
                    self.data.deep_view().take(i as int),
                ),
            decreases n - i,
        {
            proof {
                let fv = self.data.deep_view();
                assert(fv.take(i + 1).drop_last() =~= fv.take(i as int));
                assert(fv.take(i + 1).last() == fv[i as int]);
                assert(fv[i as int] == (self.data@[i as int].0@, self.data@[i as int].1@));
            }
            out.append("    ");
            out.append(self.data[i].0.as_str());
            out.append(": ");
            out.append(self.data[i].1.as_str());
            out.append("\n");
            i = i + 1;
            proof {
                assert(out@ =~= spec_describe_head(self) + spec_field_lines(
                    self.data.deep_view().take(i as int),
                ));
            }
        }
        proof {
            assert(self.data.deep_view().take(n as int) =~= self.data.deep_view());
        }
        out
    }

    /// The value stored under a key, or `None` where no entry has it.
    pub fn get(&self, key: &str) -> (r: Option<&String>)
        ensures
            spec_has_key(self.data.deep_view(), key@) ==> (r matches Some(v) && v@
                == self.data.deep_view()[spec_first_key_index(self.data.deep_view(), key@)].1),
            !spec_has_key(self.data.deep_view(), key@) ==> r is None,
    {
        let n = self.data.len();
        let mut i: usize = 0;
        while i < n
            invariant
                n == self.data.len(),
                i <= n,
                forall|j: int| 0 <= j < i ==> #[trigger] self.data.deep_view()[j].0 != key@,
            decreases n - i,
        {
            if self.data[i].0.as_str().eq(key) {
                proof {
                    let fv = self.data.deep_view();
                    assert(fv[i as int] == (self.data@[i as int].0@, self.data@[i as int].1@));
                    lemma_first_key_at(fv, key@, i as int);
                }
                return Some(&self.data[i].1);
            }
            i = i + 1;
        }
        None
    }
}

} // verus!
