//! Wall-clock capture and datetime formatting.
//!
//! The decoder stamps every message with the local time at decode and
//! turns date fragments into `YYYY-MM-DD HH:MM:SS` strings. The calendar
//! arithmetic and the formatting are stated here as spec functions; the
//! clock itself and the calendar validation are chrono's.

use vstd::prelude::*;

verus! {

/// Whether the year is a leap year of the proleptic Gregorian calendar.
pub open spec fn is_leap_year(y: int) -> bool {
    (y % 4 == 0 && y % 100 != 0) || y % 400 == 0
}

/// The number of days of a month, counting the leap day.
pub open spec fn days_in_month(y: int, m: int) -> int {
    if m == 2 {
        if is_leap_year(y) { 29 } else { 28 }
    } else if m == 4 || m == 6 || m == 9 || m == 11 {
        30
    } else {
        31
    }
}

/// Whether the six components name a calendar date and a time of day.
pub open spec fn valid_datetime(y: int, m: int, d: int, h: int, mi: int, s: int) -> bool {
    1 <= m <= 12 && 1 <= d <= days_in_month(y, m) && 0 <= h < 24 && 0 <= mi < 60 && 0 <= s < 60
}

/// The `YYYY-MM-DD HH:MM:SS` rendering of a datetime whose year has four
/// digits.
pub open spec fn datetime_chars(y: int, m: int, d: int, h: int, mi: int, s: int) -> Seq<char> {
    crate::numfmt::two_digits((y / 100) as nat) + crate::numfmt::two_digits((y % 100) as nat)
        + seq!['-'] + crate::numfmt::two_digits(m as nat) + seq!['-'] + crate::numfmt::two_digits(
        d as nat,
    ) + seq![' '] + crate::numfmt::two_digits(h as nat) + seq![':']
        + crate::numfmt::two_digits(mi as nat) + seq![':'] + crate::numfmt::two_digits(s as nat)
}

/// Relies on chrono's NaiveDate::from_ymd_opt and NaiveDate::and_hms_opt,
/// which return Some exactly for a valid Gregorian calendar date (the
/// year is at most 2255 here, well inside chrono's range) and a valid
/// time of day, and on the Display of the resulting NaiveDateTime, which
/// renders it as `YYYY-MM-DD HH:MM:SS` for four-digit years and
/// zero-second fractions.
#[verifier::external_body]
pub fn format_datetime(year: u16, month: u8, day: u8, hour: u8, min: u8, sec: u8) -> (r: Option<
    String,
>)
    requires
        1000 <= year <= 9999,
    ensures
        r is Some <==> valid_datetime(
            year as int,
            month as int,
            day as int,
            hour as int,
            min as int,
            sec as int,
        ),
        r matches Some(out) ==> out@ == datetime_chars(
            year as int,
            month as int,
            day as int,
            hour as int,
            min as int,
            sec as int,
        ),
{
    match chrono::NaiveDate::from_ymd_opt(year as i32, month as u32, day as u32) {
        Some(date) => match date.and_hms_opt(hour as u32, min as u32, sec as u32) {
            Some(dt) => Some(dt.to_string()),
            None => None,
        },
        None => None,
    }
}

/// Relies on chrono's Local::now and DateTime::timestamp_micros: the
/// local wall clock, read at the call, as microseconds since the Unix
/// epoch. Nothing is promised of the value beyond what any i64 gives;
/// two calls may differ.
#[verifier::external_body]
pub fn local_now_micros() -> (r: i64) {
    chrono::Local::now().timestamp_micros()
}

} // verus!
