//! Decimal rendering of the numeric values the decoder produces: plain
//! unsigned integers, signed integers, scaled quotients for fragments
//! with a divisor, and the zero-padded fields of a datetime string.

use vstd::prelude::*;
use vstd::string::StringExecFns;

verus! {

/// The decimal digit character for a value below ten.
pub open spec fn dec_digit_char(n: u8) -> char {
    if n == 0 { '0' } else if n == 1 { '1' } else if n == 2 { '2' } else if n == 3 { '3' }
    else if n == 4 { '4' } else if n == 5 { '5' } else if n == 6 { '6' } else if n == 7 { '7' }
    else if n == 8 { '8' } else { '9' }
}

/// The digits of `n` with no leading zeros, and nothing at all for zero:
/// the recursion behind `dec_digits`.
pub open spec fn dec_rec(n: nat) -> Seq<char>
    decreases n,
{
    if n == 0 {
        Seq::empty()
    } else {
        dec_rec(n / 10) + seq![dec_digit_char((n % 10) as u8)]
    }
}

/// The decimal digits of `n`, most significant first, with no leading
/// zeros; zero itself is the single digit `0`.
pub open spec fn dec_digits(n: nat) -> Seq<char> {
    if n == 0 {
        seq!['0']
    } else {
        dec_rec(n)
    }
}

/// The decimal digit character for a value below ten.
fn digit_char(n: u8) -> (r: char)
    requires
        n < 10,
    ensures
        r == dec_digit_char(n),
{
    match n {
        0 => '0', 1 => '1', 2 => '2', 3 => '3', 4 => '4',
        5 => '5', 6 => '6', 7 => '7', 8 => '8', _ => '9',
    }
}

/// The digit characters of a little-endian digit list, read back to
/// front.
spec fn digits_rev(rev: Seq<u8>) -> Seq<char> {
    Seq::new(rev.len(), |k: int| dec_digit_char(rev[rev.len() - 1 - k]))
}

/// Renders an unsigned integer in decimal, no leading zeros.
pub fn u64_to_decimal(n: u64) -> (r: String)
    ensures
        r@ == dec_digits(n as nat),
{
    let mut out = String::new();
    if n == 0 {
        crate::text::push_char(&mut out, '0');
        proof {
            assert(out@ =~= dec_digits(0));
        }
        return out;
    }
    let mut rev: Vec<u8> = Vec::new();
    let mut rest: u64 = n;
    while rest > 0
        invariant
            dec_rec(n as nat) =~= dec_rec(rest as nat) + digits_rev(rev@),
            forall|k: int| 0 <= k < rev@.len() ==> rev@[k] < 10,
        decreases rest,
    {
        let ghost prev = rev@;
        let d = (rest % 10) as u8;
        rev.push(d);
        rest = rest / 10;
        proof {
            assert(digits_rev(prev.push(d)) =~= seq![dec_digit_char(d)] + digits_rev(prev));
            assert(dec_rec(n as nat) =~= dec_rec(rest as nat) + digits_rev(rev@));
        }
    }
    let len = rev.len();
    let mut k: usize = 0;
    while k < len
        invariant
            k <= len,
            len == rev@.len(),
            forall|j: int| 0 <= j < rev@.len() ==> rev@[j] < 10,
            out@ =~= digits_rev(rev@).take(k as int),
        decreases len - k,
    {
        crate::text::push_char(&mut out, digit_char(rev[len - 1 - k]));
        k = k + 1;
        proof {
            assert(out@ =~= digits_rev(rev@).take(k as int));
        }
    }
    proof {
        assert(digits_rev(rev@).take(len as int) =~= digits_rev(rev@));
    }
    out
}

/// The decimal rendering of a signed integer: a minus sign for negative
/// values, then the digits of the magnitude.
pub open spec fn dec_digits_signed(n: int) -> Seq<char> {
    if n < 0 {
        seq!['-'] + dec_digits((-n) as nat)
    } else {
        dec_digits(n as nat)
    }
}

/// Renders a signed integer in decimal.
pub fn i64_to_decimal(n: i64) -> (r: String)
    ensures
        r@ == dec_digits_signed(n as int),
{
    if n >= 0 {
        u64_to_decimal(n as u64)
    } else {
        let mut out = String::new();
        crate::text::push_char(&mut out, '-');
        let mag: u64 = if n == i64::MIN {
            9223372036854775808u64
        } else {
            (-n) as u64
        };
        let digits = u64_to_decimal(mag);
        out.append(digits.as_str());
        proof {
            assert(out@ =~= dec_digits_signed(n as int));
        }
        out
    }
}

/// Fractional digits of the exact quotient `num / den`, after the decimal
/// point, one digit per long-division step, at most `fuel` digits, with
/// no trailing zeros: the expansion stops early when the remainder hits
/// zero.
pub open spec fn frac_digits(num: nat, den: nat, fuel: nat) -> Seq<char>
    decreases fuel,
{
    if fuel == 0 || num == 0 || den == 0 {
        Seq::empty()
    } else {
        seq![dec_digit_char(((num * 10) / den % 10) as u8)] + frac_digits(
            (num * 10) % den,
            den,
            (fuel - 1) as nat,
        )
    }
}

/// The fractional expansion never exceeds its fuel.
proof fn lemma_frac_digits_len(num: nat, den: nat, fuel: nat)
    ensures
        frac_digits(num, den, fuel).len() <= fuel,
    decreases fuel,
{
    if fuel > 0 && num != 0 && den != 0 {
        lemma_frac_digits_len((num * 10) % den, den, (fuel - 1) as nat);
    }
}

/// The decimal rendering of the quotient `value / divisor`: the integer
/// part, then, where the remainder is not zero, a point and up to nine
/// fractional digits without trailing zeros.
pub open spec fn scaled_decimal(value: nat, divisor: nat) -> Seq<char> {
    if divisor == 0 {
        dec_digits(value)
    } else if value % divisor == 0 {
        dec_digits(value / divisor)
    } else {
        dec_digits(value / divisor) + seq!['.'] + frac_digits(value % divisor, divisor, 9)
    }
}

/// Renders `value / divisor` as a decimal string: the exact quotient,
/// with the fractional part cut off after nine digits. A divisor of zero
/// is treated as one, as the schema's absent `fraction` is.
pub fn render_scaled(value: u32, divisor: u32) -> (r: String)
    ensures
        divisor == 0 ==> r@ == scaled_decimal(value as nat, 1),
        divisor > 0 ==> r@ == scaled_decimal(value as nat, divisor as nat),
{
    let den: u32 = if divisor == 0 { 1 } else { divisor };
    let q = value / den;
    let rem = value % den;
    let mut out = u64_to_decimal(q as u64);
    if rem == 0 {
        proof {
            assert(out@ =~= scaled_decimal(value as nat, den as nat));
        }
        return out;
    }
    crate::text::push_char(&mut out, '.');
    let ghost full = frac_digits((value % den) as nat, den as nat, 9);
    proof {
        lemma_frac_digits_len((value % den) as nat, den as nat, 9);
        assert(out@ =~= dec_digits((value / den) as nat) + seq!['.'] + full.take(0));
        assert(full.skip(0) =~= full);
    }
    let mut num: u64 = rem as u64;
    let mut steps: u64 = 0;
    while num != 0 && steps < 9
        invariant
            num < den,
            den > 0,
            steps <= 9,
            steps <= full.len(),
            full == frac_digits((value % den) as nat, den as nat, 9),
            full.len() <= 9,
            out@ =~= dec_digits((value / den) as nat) + seq!['.'] + full.take(steps as int),
            full.skip(steps as int) =~= frac_digits(num as nat, den as nat, (9 - steps) as nat),
        decreases 9 - steps,
    {
        let ghost steps0 = steps as int;
        let scaled = num * 10;
        let d = ((scaled / (den as u64)) % 10) as u8;
        proof {
            let tail = frac_digits(num as nat * 10 % (den as nat), den as nat, (9 - steps
                - 1) as nat);
            assert(frac_digits(num as nat, den as nat, (9 - steps) as nat) =~= seq![
                dec_digit_char((num as nat * 10 / (den as nat) % 10) as u8),
            ] + tail);
            assert(full.skip(steps0).len() >= 1);
            assert(steps0 < full.len());
            assert(full.skip(steps0)[0] == full[steps0]);
            assert(full[steps0] == dec_digit_char(d));
        }
        crate::text::push_char(&mut out, digit_char(d));
        num = scaled % (den as u64);
        steps = steps + 1;
        proof {
            assert(full.take(steps0 + 1) =~= full.take(steps0).push(full[steps0]));
            assert(full.skip(steps0 + 1) =~= full.skip(steps0).skip(1));
            assert(full.skip(steps0).skip(1) =~= frac_digits(
                num as nat,
                den as nat,
                (9 - steps) as nat,
            ));
        }
    }
    proof {
        if num == 0 {
            assert(frac_digits(0, den as nat, (9 - steps) as nat) =~= Seq::<char>::empty());
        } else {
            assert(frac_digits(num as nat, den as nat, 0) =~= Seq::<char>::empty());
        }
        assert(full.skip(steps as int).len() == 0);
        assert(full.len() == steps);
        assert(full.take(steps as int) =~= full);
        assert(out@ =~= scaled_decimal(value as nat, den as nat));
    }
    out
}

/// A two-digit zero-padded decimal rendering of a value below one
/// hundred.
pub open spec fn two_digits(n: nat) -> Seq<char> {
    seq![dec_digit_char((n / 10 % 10) as u8), dec_digit_char((n % 10) as u8)]
}

/// Appends the two-digit zero-padded rendering of `n`.
pub fn push_two_digits(out: &mut String, n: u8)
    requires
        n < 100,
    ensures
        final(out)@ == old(out)@ + two_digits(n as nat),
{
    crate::text::push_char(out, digit_char(n / 10));
    crate::text::push_char(out, digit_char(n % 10));
    proof {
        assert(out@ =~= old(out)@ + two_digits(n as nat));
    }
}

} // verus!
