//! Calendar dates in the `YYYY-MM-DD` text form the storage layer uses, with
//! the successor relation the streak computation is built on.

use vstd::prelude::*;

verus! {

use vstd::string::StrSliceExecFns;

/// A calendar date with validated fields.
#[derive(Clone, Copy, Debug, PartialEq, Eq, Structural)]
pub struct Date {
    pub year: u32,
    pub month: u32,
    pub day: u32,
}

/// The Gregorian leap-year rule.
pub open spec fn is_leap_year(y: int) -> bool {
    y % 4 == 0 && (y % 100 != 0 || y % 400 == 0)
}

/// Number of days in a month of a given year.
pub open spec fn days_in_month(y: int, m: int) -> int {
    if m == 1 || m == 3 || m == 5 || m == 7 || m == 8 || m == 10 || m == 12 {
        31
    } else if m == 4 || m == 6 || m == 9 || m == 11 {
        30
    } else if is_leap_year(y) {
        29
    } else {
        28
    }
}

/// A date whose fields lie in calendar range and whose year fits four digits.
pub open spec fn date_valid(d: Date) -> bool {
    &&& d.year <= 9999
    &&& 1 <= d.month <= 12
    &&& 1 <= d.day <= days_in_month(d.year as int, d.month as int)
}

/// The day after `d`.
pub open spec fn spec_next_day(d: Date) -> Date {
    if (d.day as int) < days_in_month(d.year as int, d.month as int) {
        Date { year: d.year, month: d.month, day: (d.day + 1) as u32 }
    } else if d.month < 12 {
        Date { year: d.year, month: (d.month + 1) as u32, day: 1 }
    } else {
        Date { year: (d.year + 1) as u32, month: 1, day: 1 }
    }
}

pub open spec fn is_digit(c: char) -> bool {
    48 <= c as u32 <= 57
}

pub open spec fn digit_val(c: char) -> int {
    c as u32 - 48
}

/// Parses `YYYY-MM-DD`; any other shape, or fields out of calendar range,
/// yield `None`.
pub open spec fn spec_parse_date(s: Seq<char>) -> Option<Date> {
    if s.len() == 10 && is_digit(s[0]) && is_digit(s[1]) && is_digit(s[2]) && is_digit(s[3])
        && s[4] == '-' && is_digit(s[5]) && is_digit(s[6]) && s[7] == '-' && is_digit(s[8])
        && is_digit(s[9]) {
        let y = digit_val(s[0]) * 1000 + digit_val(s[1]) * 100 + digit_val(s[2]) * 10 + digit_val(
            s[3],
        );
        let m = digit_val(s[5]) * 10 + digit_val(s[6]);
        let d = digit_val(s[8]) * 10 + digit_val(s[9]);
        if 1 <= m <= 12 && 1 <= d <= days_in_month(y, m) {
            Some(Date { year: y as u32, month: m as u32, day: d as u32 })
        } else {
            None
        }
    } else {
        None
    }
}

/// Reads a digit character as a number.
fn digit_of(c: char) -> (r: u32)
    requires
        is_digit(c),
    ensures
        r == digit_val(c),
        r <= 9,
{
    c as u32 - 48
}

fn char_is_digit(c: char) -> (r: bool)
    ensures
        r == is_digit(c),
{
    let v = c as u32;
    48 <= v && v <= 57
}

/// Number of days in a month of a given year.
pub fn month_len(year: u32, month: u32) -> (r: u32)
    ensures
        r == days_in_month(year as int, month as int),
{
    if month == 1 || month == 3 || month == 5 || month == 7 || month == 8 || month == 10 || month
        == 12 {
        31
    } else if month == 4 || month == 6 || month == 9 || month == 11 {
        30
    } else if year % 4 == 0 && (year % 100 != 0 || year % 400 == 0) {
        29
    } else {
        28
    }
}

/// Parses a date in `YYYY-MM-DD` form.
pub fn parse_date(s: &str) -> (r: Option<Date>)
    ensures
        r == spec_parse_date(s@),
        r matches Some(d) ==> date_valid(d),
{
    if s.unicode_len() != 10 {
        return None;
    }
    let c0 = s.get_char(0);
    let c1 = s.get_char(1);
    let c2 = s.get_char(2);
    let c3 = s.get_char(3);
    let c4 = s.get_char(4);
    let c5 = s.get_char(5);
    let c6 = s.get_char(6);
    let c7 = s.get_char(7);
    let c8 = s.get_char(8);
    let c9 = s.get_char(9);
    if !(char_is_digit(c0) && char_is_digit(c1) && char_is_digit(c2) && char_is_digit(c3) && c4
        == '-' && char_is_digit(c5) && char_is_digit(c6) && c7 == '-' && char_is_digit(c8)
        && char_is_digit(c9)) {
        return None;
    }
    let y = digit_of(c0) * 1000 + digit_of(c1) * 100 + digit_of(c2) * 10 + digit_of(c3);
    let m = digit_of(c5) * 10 + digit_of(c6);
    let d = digit_of(c8) * 10 + digit_of(c9);
    if 1 <= m && m <= 12 && 1 <= d && d <= month_len(y, m) {
        Some(Date { year: y, month: m, day: d })
    } else {
        None
    }
}

/// Decides whether `next` is exactly the day after `prev`.
pub fn is_next_day(prev: &Date, next: &Date) -> (r: bool)
    requires
        date_valid(*prev),
    ensures
        r == (spec_next_day(*prev) == *next),
{
    let len = month_len(prev.year, prev.month);
    if prev.day < len {
        next.year == prev.year && next.month == prev.month && next.day == prev.day + 1
    } else if prev.month < 12 {
        next.year == prev.year && next.month == prev.month + 1 && next.day == 1
    } else {
        next.year == prev.year + 1 && next.month == 1 && next.day == 1
    }
}

} // verus!
