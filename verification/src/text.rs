//! Small text helpers: building a `String` one character at a time,
//! comparing string slices, and the Unicode-alphanumeric filter that the
//! decoder applies to serial numbers and other ASCII-in-binary fields.

use vstd::prelude::*;

verus! {

/// Relies on String::push: appends the given character to the end of the
/// string.
#[verifier::external_body]
pub fn push_char(s: &mut String, c: char)
    ensures
        final(s)@ == old(s)@.push(c),
{
    s.push(c);
}

/// Relies on str's PartialEq: two string slices are equal exactly when
/// they consist of the same characters.
pub assume_specification[ <str as PartialEq>::eq ](s: &str, other: &str) -> (r: bool)
    ensures
        r == (s@ == other@),
;

/// Whether `char::is_alphanumeric` holds of the character: it depends on
/// the character alone, so the result only gets a name here.
pub uninterp spec fn alphanumeric(c: char) -> bool;

/// Relies on char::is_alphanumeric: true exactly for characters in the
/// Unicode categories letter or number; the result depends on the
/// character alone.
#[verifier::external_body]
pub fn char_is_alphanumeric(c: char) -> (r: bool)
    ensures
        r == alphanumeric(c),
{
    c.is_alphanumeric()
}

/// The subsequence of alphanumeric characters, in order.
pub open spec fn alnum_filtered(s: Seq<char>) -> Seq<char> {
    s.filter(|c: char| alphanumeric(c))
}

/// Keeps only the alphanumeric characters of the string, in order.
pub fn filter_alphanumeric(s: &str) -> (r: String)
    ensures
        r@ == alnum_filtered(s@),
{
    let n = s.unicode_len();
    let mut out = String::new();
    let mut i: usize = 0;
    proof {
        reveal(Seq::filter);
        assert(s@.take(0) =~= Seq::<char>::empty());
    }
    while i < n
        invariant
            i <= n,
            n == s@.len(),
            out@ == alnum_filtered(s@.take(i as int)),
        decreases n - i,
    {
        let c = s.get_char(i);
        let keep = char_is_alphanumeric(c);
        proof {
            reveal(Seq::filter);
            let pre = s@.take(i as int);
            let cur = s@.take(i + 1 as int);
            assert(cur.drop_last() =~= pre);
            assert(cur.last() == c);
        }
        if keep {
            push_char(&mut out, c);
        }
        assert(out@ =~= alnum_filtered(s@.take(i + 1 as int)));
        i = i + 1;
    }
    proof {
        assert(s@.take(n as int) =~= s@);
    }
    out
}

} // verus!
