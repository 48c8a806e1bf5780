//! Calendar dates, times of day, and the two accepted date-string formats.
//!
//! A caller-supplied date string is read in one of exactly two forms, tried
//! in this order: a plain calendar date `YYYY-MM-DD`, interpreted as midnight
//! UTC on that day, and an RFC 3339 timestamp with an offset (for example
//! `2026-02-15T21:42:00+01:00` or `...Z`), converted to UTC. If the plain
//! form matches, it takes precedence. Anything else is rejected.
//!
//! Timestamps are Unix seconds; the day count for a calendar date follows the
//! proleptic Gregorian calendar.

use vstd::arithmetic::div_mod::lemma_fundamental_div_mod_converse;
use vstd::prelude::*;
use vstd::string::StrSliceExecFns;

verus! {

/// A calendar date on the proleptic Gregorian calendar, year 0 through 9999.
#[derive(Debug, Clone, Copy, PartialEq, Eq, Structural)]
pub struct Date {
    pub year: i64,
    pub month: i64,
    pub day: i64,
}

/// A wall-clock time of day with minute precision, as upstream reports
/// sunrise and sunset.
#[derive(Debug, Clone, Copy, PartialEq, Eq, Structural)]
pub struct TimeOfDay {
    pub hour: i64,
    pub minute: i64,
}

/// The date string matched neither accepted format.
#[derive(Debug, Clone, Copy, PartialEq, Eq, Structural)]
pub struct InvalidDateFormat;

// --- digits ---

pub open spec fn spec_is_digit(c: char) -> bool {
    48 <= c as u32 <= 57
}

pub open spec fn spec_digit(c: char) -> int {
    c as u32 - 48
}

/// Value of the two decimal digits at `i` and `i + 1`.
pub open spec fn two_digit(s: Seq<char>, i: int) -> int {
    10 * spec_digit(s[i]) + spec_digit(s[i + 1])
}

/// Value of the four decimal digits starting at `i`.
pub open spec fn four_digit(s: Seq<char>, i: int) -> int {
    1000 * spec_digit(s[i]) + 100 * spec_digit(s[i + 1]) + 10 * spec_digit(s[i + 2]) + spec_digit(
        s[i + 3],
    )
}

// --- the calendar ---

pub open spec fn is_leap_year(y: int) -> bool {
    y % 4 == 0 && (y % 100 != 0 || y % 400 == 0)
}

pub open spec fn days_in_month(y: int, m: int) -> int {
    if m == 2 {
        if is_leap_year(y) {
            29
        } else {
            28
        }
    } else if m == 4 || m == 6 || m == 9 || m == 11 {
        30
    } else {
        31
    }
}

pub open spec fn valid_civil_date(y: int, m: int, d: int) -> bool {
    &&& 0 <= y <= 9999
    &&& 1 <= m <= 12
    &&& 1 <= d <= days_in_month(y, m)
}

impl Date {
    pub open spec fn valid(self) -> bool {
        valid_civil_date(self.year as int, self.month as int, self.day as int)
    }
}

impl TimeOfDay {
    pub open spec fn valid(self) -> bool {
        0 <= self.hour <= 23 && 0 <= self.minute <= 59
    }
}

/// Days from 1970-01-01 to the given date, negative for earlier dates.
/// This is the standard era-based formula over the proleptic Gregorian
/// calendar; spec `/` is Euclidean, which floors for the positive divisors
/// used here.
pub open spec fn days_from_civil(y: int, m: int, d: int) -> int {
    let yadj = if m <= 2 {
        y - 1
    } else {
        y
    };
    let era = yadj / 400;
    let yoe = yadj % 400;
    let mp = if m > 2 {
        m - 3
    } else {
        m + 9
    };
    let doy = (153 * mp + 2) / 5 + d - 1;
    let doe = yoe * 365 + yoe / 4 - yoe / 100 + doy;
    era * 146097 + doe - 719468
}

/// Unix timestamp of midnight UTC on the given date.
pub open spec fn midnight_timestamp(y: int, m: int, d: int) -> int {
    86400 * days_from_civil(y, m, d)
}

// --- the plain date format `YYYY-MM-DD` ---

pub open spec fn date_shape(s: Seq<char>) -> bool {
    &&& s.len() == 10
    &&& spec_is_digit(s[0])
    &&& spec_is_digit(s[1])
    &&& spec_is_digit(s[2])
    &&& spec_is_digit(s[3])
    &&& s[4] == '-'
    &&& spec_is_digit(s[5])
    &&& spec_is_digit(s[6])
    &&& s[7] == '-'
    &&& spec_is_digit(s[8])
    &&& spec_is_digit(s[9])
}

pub open spec fn date_year(s: Seq<char>) -> int {
    four_digit(s, 0)
}

pub open spec fn date_month(s: Seq<char>) -> int {
    two_digit(s, 5)
}

pub open spec fn date_day(s: Seq<char>) -> int {
    two_digit(s, 8)
}

/// The string is a well-formed plain calendar date naming a real day.
pub open spec fn plain_date_ok(s: Seq<char>) -> bool {
    date_shape(s) && valid_civil_date(date_year(s), date_month(s), date_day(s))
}

// --- the time format `HH:MM` ---

pub open spec fn time_shape(s: Seq<char>) -> bool {
    &&& s.len() == 5
    &&& spec_is_digit(s[0])
    &&& spec_is_digit(s[1])
    &&& s[2] == ':'
    &&& spec_is_digit(s[3])
    &&& spec_is_digit(s[4])
}

pub open spec fn time_hour(s: Seq<char>) -> int {
    two_digit(s, 0)
}

pub open spec fn time_minute(s: Seq<char>) -> int {
    two_digit(s, 3)
}

/// The string is a well-formed `HH:MM` time of day.
pub open spec fn plain_time_ok(s: Seq<char>) -> bool {
    time_shape(s) && time_hour(s) <= 23 && time_minute(s) <= 59
}

// --- executable parsing helpers ---

/// The decimal value of the digit character at `i`, or `None` if the
/// character there is no digit.
pub(crate) fn digit_at(s: &str, i: usize) -> (r: Option<i64>)
    requires
        i < s@.len(),
    ensures
        match r {
            Some(v) => spec_is_digit(s@[i as int]) && v == spec_digit(s@[i as int]),
            None => !spec_is_digit(s@[i as int]),
        },
{
    let u = s.get_char(i) as u32;
    if 48 <= u && u <= 57 {
        Some((u - 48) as i64)
    } else {
        None
    }
}

/// The value of the two digits at `i` and `i + 1`, or `None` if either is
/// no digit.
fn two_digits_at(s: &str, i: usize) -> (r: Option<i64>)
    requires
        i + 1 < s@.len(),
        i + 1 <= usize::MAX,
    ensures
        match r {
            Some(v) => spec_is_digit(s@[i as int]) && spec_is_digit(s@[i + 1]) && v == two_digit(
                s@,
                i as int,
            ),
            None => !(spec_is_digit(s@[i as int]) && spec_is_digit(s@[i + 1])),
        },
{
    match (digit_at(s, i), digit_at(s, i + 1)) {
        (Some(a), Some(b)) => Some(10 * a + b),
        _ => None,
    }
}

/// Days from the epoch to the given date, as `days_from_civil` states.
pub fn days_from_civil_exec(y: i64, m: i64, d: i64) -> (r: i64)
    requires
        0 <= y <= 9999,
        1 <= m <= 12,
        1 <= d <= 31,
    ensures
        r == days_from_civil(y as int, m as int, d as int),
        -865566 <= r <= 2933000,
{
    let yadj: i64 = if m <= 2 {
        y - 1
    } else {
        y
    };
    let era: i64;
    let yoe: i64;
    if yadj >= 0 {
        era = ((yadj as u64) / 400) as i64;
        yoe = ((yadj as u64) % 400) as i64;
    } else {
        era = -1;
        yoe = yadj + 400;
        proof {
            lemma_fundamental_div_mod_converse(yadj as int, 400, -1, yadj + 400);
        }
    }
    let mp: u64 = if m > 2 {
        (m - 3) as u64
    } else {
        (m + 9) as u64
    };
    let doy: i64 = ((153 * mp + 2) / 5) as i64 + d - 1;
    let doe: i64 = yoe * 365 + ((yoe as u64) / 4) as i64 - ((yoe as u64) / 100) as i64 + doy;
    era * 146097 + doe - 719468
}

/// The number of days in the given month, as the spec function states.
pub fn days_in_month_exec(y: i64, m: i64) -> (r: i64)
    requires
        0 <= y <= 9999,
        1 <= m <= 12,
    ensures
        r == days_in_month(y as int, m as int),
{
    if m == 2 {
        let yu = y as u64;
        if yu % 4 == 0 && (yu % 100 != 0 || yu % 400 == 0) {
            29
        } else {
            28
        }
    } else if m == 4 || m == 6 || m == 9 || m == 11 {
        30
    } else {
        31
    }
}

/// Reads a plain calendar date `YYYY-MM-DD` naming a real day; `None` on any
/// other input.
pub fn naivedate_from_string(s: &str) -> (r: Option<Date>)
    ensures
        match r {
            Some(date) => {
                &&& plain_date_ok(s@)
                &&& date.year == date_year(s@)
                &&& date.month == date_month(s@)
                &&& date.day == date_day(s@)
            },
            None => !plain_date_ok(s@),
        },
{
    if s.unicode_len() != 10 {
        return None;
    }
    if s.get_char(4) != '-' || s.get_char(7) != '-' {
        return None;
    }
    let (hi, lo) = match (two_digits_at(s, 0), two_digits_at(s, 2)) {
        (Some(hi), Some(lo)) => (hi, lo),
        _ => { return None },
    };
    let y = 100 * hi + lo;
    let m = match two_digits_at(s, 5) {
        Some(m) => m,
        None => { return None },
    };
    let d = match two_digits_at(s, 8) {
        Some(d) => d,
        None => { return None },
    };
    if m < 1 || m > 12 {
        return None;
    }
    if d < 1 || d > days_in_month_exec(y, m) {
        return None;
    }
    Some(Date { year: y, month: m, day: d })
}

/// Reads a wall-clock time `HH:MM`; `None` on any other input.
pub fn naivetime_from_string(s: &str) -> (r: Option<TimeOfDay>)
    ensures
        match r {
            Some(t) => {
                &&& plain_time_ok(s@)
                &&& t.hour == time_hour(s@)
                &&& t.minute == time_minute(s@)
            },
            None => !plain_time_ok(s@),
        },
{
    if s.unicode_len() != 5 {
        return None;
    }
    if s.get_char(2) != ':' {
        return None;
    }
    let h = match two_digits_at(s, 0) {
        Some(h) => h,
        None => { return None },
    };
    let mi = match two_digits_at(s, 3) {
        Some(mi) => mi,
        None => { return None },
    };
    if h > 23 || mi > 59 {
        return None;
    }
    Some(TimeOfDay { hour: h, minute: mi })
}

// --- the RFC 3339 format ---

/// First index at or after `i` holding no decimal digit.
pub open spec fn skip_digits(s: Seq<char>, i: int) -> int
    decreases s.len() - i,
{
    if 0 <= i < s.len() && spec_is_digit(s[i]) {
        skip_digits(s, i + 1)
    } else {
        i
    }
}

/// The offset suffix of an RFC 3339 string starting at `j`: `Z` (or `z`) for
/// UTC, or a signed `+HH:MM` / `-HH:MM` offset, which must end the string.
/// Yields the offset in seconds east of UTC.
pub open spec fn spec_parse_offset(s: Seq<char>, j: int) -> Option<int> {
    if j == s.len() - 1 && (s[j] == 'Z' || s[j] == 'z') {
        Some(0)
    } else if j == s.len() - 6 && (s[j] == '+' || s[j] == '-') && spec_is_digit(s[j + 1])
        && spec_is_digit(s[j + 2]) && s[j + 3] == ':' && spec_is_digit(s[j + 4]) && spec_is_digit(
        s[j + 5],
    ) {
        let oh = two_digit(s, j + 1);
        let om = two_digit(s, j + 4);
        if oh <= 23 && om <= 59 {
            if s[j] == '-' {
                Some(-(3600 * oh + 60 * om))
            } else {
                Some(3600 * oh + 60 * om)
            }
        } else {
            None
        }
    } else {
        None
    }
}

/// The time-of-day part of an RFC 3339 string, `T` (or `t`) then `HH:MM:SS`,
/// at positions 10 through 18.
pub open spec fn rfc3339_time_shape(s: Seq<char>) -> bool {
    &&& (s[10] == 'T' || s[10] == 't')
    &&& spec_is_digit(s[11])
    &&& spec_is_digit(s[12])
    &&& s[13] == ':'
    &&& spec_is_digit(s[14])
    &&& spec_is_digit(s[15])
    &&& s[16] == ':'
    &&& spec_is_digit(s[17])
    &&& spec_is_digit(s[18])
}

/// The Unix timestamp denoted by an RFC 3339 timestamp string: a calendar
/// date, `T`, a time of day with an optional fractional-second part, and an
/// offset, converted to UTC. The fraction is ignored (the timestamp has
/// second precision) and a leap second `:60` counts as `:59`. `None` when the
/// string has any other form, names no real calendar day, or puts a time or
/// offset field out of range.
pub open spec fn spec_parse_rfc3339(s: Seq<char>) -> Option<int> {
    if s.len() < 20 {
        None
    } else {
        let date = s.subrange(0, 10);
        if !plain_date_ok(date) {
            None
        } else if !rfc3339_time_shape(s) {
            None
        } else {
            let hh = two_digit(s, 11);
            let mi = two_digit(s, 14);
            let ss = two_digit(s, 17);
            if hh > 23 || mi > 59 || ss > 60 {
                None
            } else {
                let j = if s[19] == '.' {
                    skip_digits(s, 20)
                } else {
                    19
                };
                if s[19] == '.' && j == 20 {
                    None
                } else {
                    match spec_parse_offset(s, j) {
                        Some(off) => Some(
                            midnight_timestamp(date_year(date), date_month(date), date_day(date))
                                + 3600 * hh + 60 * mi + (if ss == 60 {
                                59int
                            } else {
                                ss
                            }) - off,
                        ),
                        None => None,
                    }
                }
            }
        }
    }
}

/// Reads an RFC 3339 timestamp and converts it to a Unix timestamp in UTC;
/// `None` on any other input, as `spec_parse_rfc3339` states.
pub fn parse_rfc3339(s: &str) -> (r: Option<i64>)
    ensures
        match r {
            Some(ts) => spec_parse_rfc3339(s@) == Some(ts as int),
            None => spec_parse_rfc3339(s@) is None,
        },
{
    let n = s.unicode_len();
    if n < 20 {
        return None;
    }
    let date_part = s.substring_char(0, 10);
    let date = match naivedate_from_string(date_part) {
        Some(d) => d,
        None => { return None },
    };
    let tc = s.get_char(10);
    if !(tc == 'T' || tc == 't') {
        return None;
    }
    if s.get_char(13) != ':' || s.get_char(16) != ':' {
        return None;
    }
    let hh = match two_digits_at(s, 11) {
        Some(v) => v,
        None => { return None },
    };
    let mi = match two_digits_at(s, 14) {
        Some(v) => v,
        None => { return None },
    };
    let ss = match two_digits_at(s, 17) {
        Some(v) => v,
        None => { return None },
    };
    if hh > 23 || mi > 59 || ss > 60 {
        return None;
    }
    let j: usize;
    if s.get_char(19) == '.' {
        let mut k: usize = 20;
        loop
            invariant
                20 <= k <= n,
                n == s@.len(),
                skip_digits(s@, 20) == skip_digits(s@, k as int),
            ensures
                20 <= k <= n,
                n == s@.len(),
                skip_digits(s@, 20) == k,
            decreases n - k,
        {
            if k == n {
                break ;
            }
            match digit_at(s, k) {
                Some(_) => {
                    k = k + 1;
                },
                None => { break  },
            }
        }
        if k == 20 {
            return None;
        }
        j = k;
    } else {
        j = 19;
    }
    if n - j != 1 && n - j != 6 {
        return None;
    }
    let c = s.get_char(j);
    let off: i64;
    if c == 'Z' || c == 'z' {
        if n - j != 1 {
            return None;
        }
        off = 0;
    } else if c == '+' || c == '-' {
        if n - j != 6 {
            return None;
        }
        if s.get_char(j + 3) != ':' {
            return None;
        }
        let oh = match two_digits_at(s, j + 1) {
            Some(v) => v,
            None => { return None },
        };
        let om = match two_digits_at(s, j + 4) {
            Some(v) => v,
            None => { return None },
        };
        if oh > 23 || om > 59 {
            return None;
        }
        let magnitude = 3600 * oh + 60 * om;
        off = if c == '-' {
            -magnitude
        } else {
            magnitude
        };
    } else {
        return None;
    }
    let days = days_from_civil_exec(date.year, date.month, date.day);
    let ss_clamped = if ss == 60 {
        59
    } else {
        ss
    };
    Some(86400 * days + 3600 * hh + 60 * mi + ss_clamped - off)
}

// --- the two accepted formats, in order ---

/// The timestamp a caller-supplied date string denotes. The plain calendar
/// date form is tried first and read as midnight UTC; only a string that
/// does not match it is read as an RFC 3339 timestamp; anything else is
/// rejected.
pub open spec fn spec_parse_date(s: Seq<char>) -> Option<int> {
    if plain_date_ok(s) {
        Some(midnight_timestamp(date_year(s), date_month(s), date_day(s)))
    } else {
        spec_parse_rfc3339(s)
    }
}

/// Parses a date string in one of the two accepted formats, plain calendar
/// date first, and yields the Unix timestamp it denotes.
pub fn parse_date_from_string(s: &str) -> (r: Result<i64, InvalidDateFormat>)
    ensures
        match r {
            Ok(ts) => spec_parse_date(s@) == Some(ts as int),
            Err(e) => spec_parse_date(s@) is None,
        },
{
    match naivedate_from_string(s) {
        Some(date) => {
            let days = days_from_civil_exec(date.year, date.month, date.day);
            Ok(86400 * days)
        },
        None => match parse_rfc3339(s) {
            Some(ts) => Ok(ts),
            None => Err(InvalidDateFormat),
        },
    }
}

} // verus!
