//! Calendar dates of Unix timestamps in the proleptic Gregorian calendar,
//! and their text as chrono writes it with `%Y-%m-%d`.

use vstd::prelude::*;
use chrono::TimeZone;
use crate::text::digit_char;

verus! {

/// `y` is a leap year of the Gregorian calendar.
pub open spec fn is_leap_year(y: int) -> bool {
    y % 4 == 0 && (y % 100 != 0 || y % 400 == 0)
}

/// The number of days of the year `y`.
pub open spec fn year_length(y: int) -> nat {
    if is_leap_year(y) {
        366
    } else {
        365
    }
}

/// The number of days of the month `m` (1 to 12) of the year `y`.
pub open spec fn month_length(y: int, m: int) -> nat {
    if m == 2 {
        if is_leap_year(y) {
            29
        } else {
            28
        }
    } else if m == 4 || m == 6 || m == 9 || m == 11 {
        30
    } else {
        31
    }
}

/// The year of the day `d` days after the first day of the year `y`, and the
/// day's place (from 0) within that year.
pub open spec fn year_and_day(y: int, d: nat) -> (int, nat)
    decreases d,
{
    if d < year_length(y) {
        (y, d)
    } else {
        year_and_day(y + 1, (d - year_length(y)) as nat)
    }
}

/// The month of the day `d` days after the first day of the month `m` of the
/// year `y`, and the day's place (from 0) within that month.
pub open spec fn month_and_day(y: int, m: int, d: nat) -> (int, nat)
    decreases 12 - m,
{
    if m >= 12 || d < month_length(y, m) {
        (m, d)
    } else {
        month_and_day(y, m + 1, (d - month_length(y, m)) as nat)
    }
}

/// The UTC calendar day (year, month, day of month) that contains the Unix
/// timestamp `secs`.
pub open spec fn utc_date(secs: u32) -> (int, int, int) {
    let (y, doy) = year_and_day(1970, (secs / 86400) as nat);
    let (m, dom) = month_and_day(y, 1, doy);
    (y, m, dom as int + 1)
}

/// A number below 100 in two digits.
pub open spec fn two_digits(n: int) -> Seq<char> {
    seq![digit_char((n / 10) as nat), digit_char((n % 10) as nat)]
}

/// A number below 10000 in four digits.
pub open spec fn four_digits(n: int) -> Seq<char> {
    two_digits(n / 100) + two_digits(n % 100)
}

/// The text `YYYY-MM-DD` of the UTC calendar day that contains `secs`.
pub open spec fn utc_day_text(secs: u32) -> Seq<char> {
    let (y, m, d) = utc_date(secs);
    four_digits(y) + seq!['-'] + two_digits(m) + seq!['-'] + two_digits(d)
}

/// `chrono::Utc.timestamp_opt(secs, 0)` formatted with `"%Y-%m-%d"`: the
/// proleptic Gregorian year in four digits, the month and the day of month in
/// two, of the UTC day that contains `secs`. Every `u32` number of seconds
/// lies within chrono's range (its years run from 1970 to 2106), so the
/// conversion always yields a single date.
#[verifier::external_body]
pub(crate) fn utc_day(secs: u32) -> (r: String)
    ensures
        r@ == utc_day_text(secs),
{
    chrono::Utc.timestamp_opt(secs.into(), 0).unwrap().format("%Y-%m-%d").to_string()
}

/// The day of a timestamp when there is one, `-` otherwise.
pub open spec fn day_cell_text(secs: Option<u32>) -> Seq<char> {
    match secs {
        Some(t) => utc_day_text(t),
        None => "-"@,
    }
}

/// Writes the day of a timestamp, or `-` where there is none.
pub fn day_cell(secs: Option<u32>) -> (r: String)
    ensures
        r@ == day_cell_text(secs),
{
    match secs {
        Some(t) => utc_day(t),
        None => String::from_str("-"),
    }
}

/// The calendar day `a` is not after the calendar day `b`.
pub open spec fn day_not_after(a: (int, int, int), b: (int, int, int)) -> bool {
    a.0 < b.0 || (a.0 == b.0 && (a.1 < b.1 || (a.1 == b.1 && a.2 <= b.2)))
}

proof fn lemma_year_not_before(y: int, d: nat)
    ensures
        year_and_day(y, d).0 >= y,
    decreases d,
{
    if d >= year_length(y) {
        lemma_year_not_before(y + 1, (d - year_length(y)) as nat);
    }
}

proof fn lemma_month_not_before(y: int, m: int, d: nat)
    ensures
        month_and_day(y, m, d).0 >= m,
    decreases 12 - m,
{
    if !(m >= 12 || d < month_length(y, m)) {
        lemma_month_not_before(y, m + 1, (d - month_length(y, m)) as nat);
    }
}

proof fn lemma_year_and_day_monotone(y: int, d1: nat, d2: nat)
    requires
        d1 <= d2,
    ensures
        year_and_day(y, d1).0 < year_and_day(y, d2).0 || (year_and_day(y, d1).0 == year_and_day(
            y,
            d2,
        ).0 && year_and_day(y, d1).1 <= year_and_day(y, d2).1),
    decreases d2,
{
    if d2 >= year_length(y) {
        if d1 < year_length(y) {
            lemma_year_not_before(y + 1, (d2 - year_length(y)) as nat);
        } else {
            lemma_year_and_day_monotone(
                y + 1,
                (d1 - year_length(y)) as nat,
                (d2 - year_length(y)) as nat,
            );
        }
    }
}

proof fn lemma_month_and_day_monotone(y: int, m: int, d1: nat, d2: nat)
    requires
        d1 <= d2,
    ensures
        month_and_day(y, m, d1).0 < month_and_day(y, m, d2).0 || (month_and_day(y, m, d1).0
            == month_and_day(y, m, d2).0 && month_and_day(y, m, d1).1 <= month_and_day(
            y,
            m,
            d2,
        ).1),
    decreases 12 - m,
{
    if !(m >= 12 || d2 < month_length(y, m)) {
        if d1 < month_length(y, m) {
            lemma_month_not_before(y, m + 1, (d2 - month_length(y, m)) as nat);
        } else {
            lemma_month_and_day_monotone(
                y,
                m + 1,
                (d1 - month_length(y, m)) as nat,
                (d2 - month_length(y, m)) as nat,
            );
        }
    }
}

/// A later timestamp never falls on an earlier calendar day.
pub proof fn lemma_utc_date_monotone(s1: u32, s2: u32)
    requires
        s1 <= s2,
    ensures
        day_not_after(utc_date(s1), utc_date(s2)),
{
    assert(s1 / 86400 <= s2 / 86400) by (nonlinear_arith)
        requires
            s1 <= s2,
    ;
    let (d1, d2) = ((s1 / 86400) as nat, (s2 / 86400) as nat);
    lemma_year_and_day_monotone(1970, d1, d2);
    let (y1, doy1) = year_and_day(1970, d1);
    let (y2, doy2) = year_and_day(1970, d2);
    if y1 == y2 {
        lemma_month_and_day_monotone(y1, 1, doy1, doy2);
    }
}

} // verus!
