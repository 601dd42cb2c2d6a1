//! RFC 3339 timestamps, as the engine reports a container's finish time,
//! evaluated to integer seconds since the Unix epoch.
//!
//! The accepted form is `YYYY-MM-DDThh:mm:ss[.fff...]Z` or the same with a
//! numeric `±hh:mm` offset; `T` and `Z` may be lower case. Fractional seconds
//! are parsed and discarded. A leap second (`ss` = 60) counts as second 59 of
//! its minute. Dates follow the proleptic Gregorian calendar, years 0000
//! through 9999.

use vstd::prelude::*;
use vstd::string::StrSliceExecFns;

verus! {

/// An ASCII decimal digit.
pub open spec fn is_digit(c: char) -> bool {
    48 <= c as int <= 57
}

/// The value of an ASCII decimal digit.
pub open spec fn digit(c: char) -> int {
    c as int - 48
}

/// The value of the two digits at `i`.
pub open spec fn spec_num2(s: Seq<char>, i: int) -> int {
    digit(s[i]) * 10 + digit(s[i + 1])
}

/// The value of the four digits at `i`.
pub open spec fn spec_num4(s: Seq<char>, i: int) -> int {
    digit(s[i]) * 1000 + digit(s[i + 1]) * 100 + digit(s[i + 2]) * 10 + digit(s[i + 3])
}

/// Leap years of the proleptic Gregorian calendar.
pub open spec fn is_leap_year(y: int) -> bool {
    y % 4 == 0 && (y % 100 != 0 || y % 400 == 0)
}

/// Days in month `m` of year `y` (months counted 1 to 12).
pub open spec fn days_in_month(y: int, m: int) -> int {
    if m == 2 {
        if is_leap_year(y) {
            29
        } else {
            28
        }
    } else if m == 4 || m == 6 || m == 9 || m == 11 {
        30
    } else {
        31
    }
}

/// Days in the months of year `y` before month `m`.
pub open spec fn days_before_month(y: int, m: int) -> int {
    let base = if m == 1 {
        0int
    } else if m == 2 {
        31
    } else if m == 3 {
        59
    } else if m == 4 {
        90
    } else if m == 5 {
        120
    } else if m == 6 {
        151
    } else if m == 7 {
        181
    } else if m == 8 {
        212
    } else if m == 9 {
        243
    } else if m == 10 {
        273
    } else if m == 11 {
        304
    } else {
        334
    };
    base + if is_leap_year(y) && m > 2 {
        1int
    } else {
        0int
    }
}

/// Days from 0000-01-01 to `y`-01-01, for years 0 through 9999: 365 per year
/// plus one per leap year passed (year 0 is a leap year).
pub open spec fn days_before_year(y: int) -> int {
    if y == 0 {
        0
    } else {
        365 * y + (y - 1) / 4 - (y - 1) / 100 + (y - 1) / 400 + 1
    }
}

/// Days from 0000-01-01 to 1970-01-01.
pub open spec fn epoch_day_number() -> int {
    719528
}

/// The day number of a calendar date relative to 1970-01-01.
pub open spec fn epoch_day(y: int, m: int, d: int) -> int {
    days_before_year(y) + days_before_month(y, m) + (d - 1) - epoch_day_number()
}

/// Seconds since the Unix epoch of the given calendar fields, a leap second
/// counting as second 59, minus the numeric offset.
pub open spec fn spec_timestamp(
    y: int,
    m: int,
    d: int,
    h: int,
    mi: int,
    sec: int,
    offset: int,
) -> int {
    let es = if sec == 60 {
        59int
    } else {
        sec
    };
    epoch_day(y, m, d) * 86400 + h * 3600 + mi * 60 + es - offset
}

/// The epoch date itself is day zero, which anchors the calendar
/// arithmetic: day numbers count from 1970-01-01 exactly.
pub proof fn lemma_epoch_day_zero()
    ensures
        epoch_day(1970, 1, 1) == 0,
{
}

/// The fixed date-and-time prefix `YYYY-MM-DDThh:mm:ss` of the grammar.
pub open spec fn date_time_shape(s: Seq<char>) -> bool {
    &&& s.len() >= 20
    &&& is_digit(s[0]) && is_digit(s[1]) && is_digit(s[2]) && is_digit(s[3])
    &&& s[4] == '-' && is_digit(s[5]) && is_digit(s[6])
    &&& s[7] == '-' && is_digit(s[8]) && is_digit(s[9])
    &&& (s[10] == 'T' || s[10] == 't')
    &&& is_digit(s[11]) && is_digit(s[12]) && s[13] == ':'
    &&& is_digit(s[14]) && is_digit(s[15]) && s[16] == ':'
    &&& is_digit(s[17]) && is_digit(s[18])
}

/// The first position at or after `i` that does not hold a digit.
pub open spec fn skip_digits(s: Seq<char>, i: int) -> int
    decreases s.len() - i,
{
    if 0 <= i < s.len() && is_digit(s[i]) {
        skip_digits(s, i + 1)
    } else {
        i
    }
}

/// Where the offset begins: right after the seconds, or after a fraction of
/// at least one digit; absent when a `.` is not followed by a digit.
pub open spec fn offset_start(s: Seq<char>) -> Option<int> {
    if s.len() > 19 && s[19] == '.' {
        let e = skip_digits(s, 20);
        if e == 20 {
            Option::None
        } else {
            Option::Some(e)
        }
    } else {
        Option::Some(19int)
    }
}

/// The offset form beginning at `i`: `Z` ending the string, or `±hh:mm`
/// ending the string.
pub open spec fn offset_shape(s: Seq<char>, i: int) -> bool {
    ||| (i == s.len() - 1 && (s[i] == 'Z' || s[i] == 'z'))
    ||| (i + 6 == s.len() && (s[i] == '+' || s[i] == '-') && is_digit(s[i + 1]) && is_digit(
        s[i + 2],
    ) && s[i + 3] == ':' && is_digit(s[i + 4]) && is_digit(s[i + 5]))
}

/// A numeric offset names at most 23 hours 59 minutes; `Z` has no fields.
pub open spec fn offset_valid(s: Seq<char>, i: int) -> bool {
    s[i] == 'Z' || s[i] == 'z' || (spec_num2(s, i + 1) <= 23 && spec_num2(s, i + 4) <= 59)
}

/// The offset in seconds named at `i`.
pub open spec fn spec_offset_secs(s: Seq<char>, i: int) -> int {
    if s[i] == 'Z' || s[i] == 'z' {
        0
    } else {
        let v = (spec_num2(s, i + 1) * 60 + spec_num2(s, i + 4)) * 60;
        if s[i] == '-' {
            -v
        } else {
            v
        }
    }
}

/// The calendar fields name a real date and time: month 1 to 12, day within
/// the month, hour to 23, minute to 59, second to 60 (60 being a leap
/// second).
pub open spec fn fields_valid(s: Seq<char>) -> bool {
    &&& 1 <= spec_num2(s, 5) <= 12
    &&& 1 <= spec_num2(s, 8) <= days_in_month(spec_num4(s, 0), spec_num2(s, 5))
    &&& spec_num2(s, 11) <= 23
    &&& spec_num2(s, 14) <= 59
    &&& spec_num2(s, 17) <= 60
}

/// What an RFC 3339 timestamp string evaluates to: its seconds since the
/// Unix epoch when it matches the grammar and names a real date and time,
/// nothing otherwise.
pub open spec fn spec_parse_rfc3339(s: Seq<char>) -> Option<i64> {
    if date_time_shape(s) {
        match offset_start(s) {
            Option::Some(i) => {
                if offset_shape(s, i) && offset_valid(s, i) && fields_valid(s) {
                    Option::Some(
                        spec_timestamp(
                            spec_num4(s, 0),
                            spec_num2(s, 5),
                            spec_num2(s, 8),
                            spec_num2(s, 11),
                            spec_num2(s, 14),
                            spec_num2(s, 17),
                            spec_offset_secs(s, i),
                        ) as i64,
                    )
                } else {
                    Option::None
                }
            },
            Option::None => Option::None,
        }
    } else {
        Option::None
    }
}

/// Whether a character is an ASCII decimal digit.
fn is_digit_at(s: &str, i: usize) -> (r: bool)
    requires
        i < s@.len(),
    ensures
        r == is_digit(s@[i as int]),
{
    let v = s.get_char(i) as u32;
    48 <= v && v <= 57
}

/// The value of the two digits at `i`.
fn num2(s: &str, i: usize) -> (r: u32)
    requires
        s@.len() <= usize::MAX,
        i + 1 < s@.len(),
        is_digit(s@[i as int]),
        is_digit(s@[i as int + 1]),
    ensures
        r == spec_num2(s@, i as int),
        r <= 99,
{
    let d0 = s.get_char(i) as u32 - 48;
    let d1 = s.get_char(i + 1) as u32 - 48;
    d0 * 10 + d1
}

/// The value of the four digits at `i`.
fn num4(s: &str, i: usize) -> (r: u32)
    requires
        s@.len() <= usize::MAX,
        i + 3 < s@.len(),
        is_digit(s@[i as int]),
        is_digit(s@[i as int + 1]),
        is_digit(s@[i as int + 2]),
        is_digit(s@[i as int + 3]),
    ensures
        r == spec_num4(s@, i as int),
        r <= 9999,
{
    let d0 = s.get_char(i) as u32 - 48;
    let d1 = s.get_char(i + 1) as u32 - 48;
    let d2 = s.get_char(i + 2) as u32 - 48;
    let d3 = s.get_char(i + 3) as u32 - 48;
    d0 * 1000 + d1 * 100 + d2 * 10 + d3
}

/// Days in month `m` of year `y`.
fn days_in_month_exec(y: i64, m: u32) -> (r: u32)
    requires
        0 <= y <= 9999,
        1 <= m <= 12,
    ensures
        r == days_in_month(y as int, m as int),
{
    if m == 2 {
        if y % 4 == 0 && (y % 100 != 0 || y % 400 == 0) {
            29
        } else {
            28
        }
    } else if m == 4 || m == 6 || m == 9 || m == 11 {
        30
    } else {
        31
    }
}

/// Days in the months of year `y` before month `m`.
fn days_before_month_exec(y: i64, m: u32) -> (r: u32)
    requires
        0 <= y <= 9999,
        1 <= m <= 12,
    ensures
        r == days_before_month(y as int, m as int),
{
    let base: u32 = if m == 1 {
        0
    } else if m == 2 {
        31
    } else if m == 3 {
        59
    } else if m == 4 {
        90
    } else if m == 5 {
        120
    } else if m == 6 {
        151
    } else if m == 7 {
        181
    } else if m == 8 {
        212
    } else if m == 9 {
        243
    } else if m == 10 {
        273
    } else if m == 11 {
        304
    } else {
        334
    };
    let leap: u32 = if (y % 4 == 0 && (y % 100 != 0 || y % 400 == 0)) && m > 2 {
        1
    } else {
        0
    };
    base + leap
}

/// Days from 0000-01-01 to `y`-01-01.
fn days_before_year_exec(y: i64) -> (r: i64)
    requires
        0 <= y <= 9999,
    ensures
        r == days_before_year(y as int),
        0 <= r <= 3652425,
{
    if y == 0 {
        0
    } else {
        let p = y - 1;
        365 * y + p / 4 - p / 100 + p / 400 + 1
    }
}

/// Evaluate an RFC 3339 timestamp to seconds since the Unix epoch; nothing
/// when the string does not match the grammar or names no real date and
/// time. The cleaner compares the result against its age threshold.
pub fn parse_rfc3339_epoch(s: &str) -> (r: Option<i64>)
    ensures
        r == spec_parse_rfc3339(s@),
{
    let n = s.unicode_len();
    // The fixed date-and-time prefix.
    if n < 20 {
        return None;
    }
    let shape_ok = is_digit_at(s, 0) && is_digit_at(s, 1) && is_digit_at(s, 2) && is_digit_at(s, 3)
        && s.get_char(4) == '-' && is_digit_at(s, 5) && is_digit_at(s, 6) && s.get_char(7) == '-'
        && is_digit_at(s, 8) && is_digit_at(s, 9) && (s.get_char(10) == 'T' || s.get_char(10)
        == 't') && is_digit_at(s, 11) && is_digit_at(s, 12) && s.get_char(13) == ':' && is_digit_at(
        s,
        14,
    ) && is_digit_at(s, 15) && s.get_char(16) == ':' && is_digit_at(s, 17) && is_digit_at(s, 18);
    if !shape_ok {
        return None;
    }
    // An optional fraction: `.` and at least one digit.
    let mut off_at: usize = 19;
    if s.get_char(19) == '.' {
        let mut j: usize = 20;
        while j < n && is_digit_at(s, j)
            invariant
                20 <= j <= n,
                n == s@.len(),
                skip_digits(s@, 20) == skip_digits(s@, j as int),
            decreases n - j,
        {
            j = j + 1;
        }
        if j == 20 {
            return None;
        }
        off_at = j;
    }
    assert(offset_start(s@) == Option::Some(off_at as int));
    // The offset: `Z`, or `±hh:mm`, ending the string.
    if off_at >= n {
        return None;
    }
    let c = s.get_char(off_at);
    let offset_secs: i64;
    if c == 'Z' || c == 'z' {
        if off_at != n - 1 {
            return None;
        }
        offset_secs = 0;
    } else if c == '+' || c == '-' {
        if n - off_at != 6 {
            return None;
        }
        if !(is_digit_at(s, off_at + 1) && is_digit_at(s, off_at + 2) && s.get_char(off_at + 3)
            == ':' && is_digit_at(s, off_at + 4) && is_digit_at(s, off_at + 5)) {
            return None;
        }
        let oh = num2(s, off_at + 1);
        let om = num2(s, off_at + 4);
        if oh > 23 || om > 59 {
            return None;
        }
        let v = ((oh * 60 + om) * 60) as i64;
        offset_secs = if c == '-' {
            -v
        } else {
            v
        };
    } else {
        return None;
    }
    assert(offset_shape(s@, off_at as int) && offset_valid(s@, off_at as int));
    assert(offset_secs == spec_offset_secs(s@, off_at as int));
    // The calendar fields must name a real date and time.
    let year = num4(s, 0);
    let month = num2(s, 5);
    let day = num2(s, 8);
    let hour = num2(s, 11);
    let minute = num2(s, 14);
    let sec = num2(s, 17);
    if month < 1 || month > 12 {
        return None;
    }
    if day < 1 || day > days_in_month_exec(year as i64, month) {
        return None;
    }
    if hour > 23 || minute > 59 || sec > 60 {
        return None;
    }
    assert(fields_valid(s@));
    // The timestamp value.
    let days = days_before_year_exec(year as i64) + days_before_month_exec(year as i64, month)
        as i64 + day as i64 - 1 - 719528;
    let esec: i64 = if sec == 60 {
        59
    } else {
        sec as i64
    };
    let value = days * 86400 + hour as i64 * 3600 + minute as i64 * 60 + esec - offset_secs;
    Some(value)
}

} // verus!
