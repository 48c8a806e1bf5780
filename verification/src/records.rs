//! Weather readings and the coercion of raw upstream records.
//!
//! Upstream hands over one raw record per sol, every field a string. A raw
//! record is coerced into a typed reading in two stages: the sol number, the
//! terrestrial date and the sunrise and sunset times must parse, or the
//! record is rejected; the minimum and maximum temperatures become `None`
//! when their strings do not parse as integers, never a sentinel value.

use crate::dates::{
    date_day, date_month, date_year, digit_at, naivedate_from_string, naivetime_from_string, plain_date_ok,
    plain_time_ok, spec_digit, spec_is_digit, time_hour, time_minute, Date, TimeOfDay,
};
use crate::Sole;
use vstd::prelude::*;
use vstd::string::StrSliceExecFns;

verus! {

/// One weather reading: the sol it belongs to, optional temperatures, the
/// sunrise and sunset times, and the passthrough fields upstream sends
/// along (record id, terrestrial calendar date).
#[derive(Debug, Clone)]
pub struct SoleData {
    pub id: String,
    pub terrestrial_date: Date,
    pub sol: Sole,
    pub min_temp: Option<i64>,
    pub max_temp: Option<i64>,
    pub sunrise: TimeOfDay,
    pub sunset: TimeOfDay,
}

/// A raw upstream record, every field still a string.
#[derive(Debug, Clone)]
pub struct RawSoleRecord {
    pub id: String,
    pub terrestrial_date: String,
    pub sol: String,
    pub min_temp: String,
    pub max_temp: String,
    pub sunrise: String,
    pub sunset: String,
}

/// Why a raw record was rejected: the first field, in the order sol,
/// terrestrial date, sunrise, sunset, that did not parse.
#[derive(Debug, Clone, Copy, PartialEq, Eq, Structural)]
pub enum RecordError {
    BadSol,
    BadDate,
    BadSunrise,
    BadSunset,
}

/// The sol-number string did not parse as an integer.
#[derive(Debug, Clone, Copy, PartialEq, Eq, Structural)]
pub struct InvalidSolNumber;

// --- decimal integer strings ---

pub open spec fn all_digits(s: Seq<char>) -> bool {
    forall|k: int| 0 <= k < s.len() ==> spec_is_digit(s[k])
}

/// Value of a string of decimal digits.
pub open spec fn digits_val(s: Seq<char>) -> int
    decreases s.len(),
{
    if s.len() == 0 {
        0
    } else {
        10 * digits_val(s.drop_last()) + spec_digit(s.last())
    }
}

/// The integer a string denotes: an optional `+` or `-` sign, then one or
/// more decimal digits, nothing else.
pub open spec fn spec_parse_int(s: Seq<char>) -> Option<int> {
    let neg = s.len() > 0 && s[0] == '-';
    let ds = if s.len() > 0 && (s[0] == '+' || s[0] == '-') {
        s.subrange(1, s.len() as int)
    } else {
        s
    };
    if ds.len() > 0 && all_digits(ds) {
        if neg {
            Some(-digits_val(ds))
        } else {
            Some(digits_val(ds))
        }
    } else {
        None
    }
}

/// As `spec_parse_int`, but an integer outside the `i64` range does not
/// parse.
pub open spec fn spec_parse_i64(s: Seq<char>) -> Option<int> {
    match spec_parse_int(s) {
        Some(v) => if i64::MIN <= v <= i64::MAX {
            Some(v)
        } else {
            None
        },
        None => None,
    }
}

/// A digit string's value is nonnegative and no prefix of it has a larger
/// value.
proof fn lemma_digits_val_prefix(s: Seq<char>, i: int)
    requires
        0 <= i <= s.len(),
        all_digits(s),
    ensures
        digits_val(s) >= digits_val(s.subrange(0, i)) >= 0,
    decreases s.len(),
{
    if s.len() == 0 {
        assert(s.subrange(0, i) =~= s);
    } else if i == s.len() {
        assert(s.subrange(0, i) =~= s);
        lemma_digits_val_prefix(s.drop_last(), s.len() - 1);
        assert(s.drop_last().subrange(0, s.len() - 1) =~= s.drop_last());
    } else {
        assert(s.drop_last() =~= s.subrange(0, s.len() - 1));
        assert(forall|k: int| 0 <= k < s.drop_last().len() ==> s.drop_last()[k] == s[k]);
        lemma_digits_val_prefix(s.drop_last(), i);
        assert(s.drop_last().subrange(0, i) =~= s.subrange(0, i));
    }
}

/// Reads a decimal integer with optional sign into an `i64`; `None` when the
/// string has any other form or the value does not fit, as `spec_parse_i64`
/// states.
pub fn i64_from_string(s: &str) -> (r: Option<i64>)
    ensures
        match r {
            Some(v) => spec_parse_i64(s@) == Some(v as int),
            None => spec_parse_i64(s@) is None,
        },
{
    let n = s.unicode_len();
    let mut i: usize = 0;
    let mut neg = false;
    if n > 0 {
        let c0 = s.get_char(0);
        if c0 == '+' || c0 == '-' {
            i = 1;
            neg = c0 == '-';
        }
    }
    let ghost start = i as int;
    let ghost ds = s@.subrange(start, n as int);
    if i >= n {
        proof {
            assert(ds.len() == 0);
            if start == 0 {
                assert(ds =~= s@);
            }
        }
        return None;
    }
    // `acc` accumulates the negated value, so that `i64::MIN` is reachable.
    let mut acc: i64 = 0;
    while i < n
        invariant
            start <= i <= n,
            n == s@.len(),
            0 <= start <= 1,
            (start == 1) <==> (n > 0 && (s@[0] == '+' || s@[0] == '-')),
            neg <==> (start == 1 && s@[0] == '-'),
            ds == s@.subrange(start, n as int),
            forall|k: int| start <= k < i ==> spec_is_digit(s@[k]),
            acc <= 0,
            acc == -digits_val(s@.subrange(start, i as int)),
        decreases n - i,
    {
        let d = match digit_at(s, i) {
            Some(d) => d,
            None => {
                proof {
                    assert(ds[i - start] == s@[i as int]);
                    assert(!all_digits(ds));
                    if start == 0 {
                        assert(ds =~= s@);
                    }
                }
                return None;
            },
        };
        let ghost prev = s@.subrange(start, i as int);
        let ghost cur = s@.subrange(start, i + 1);
        proof {
            assert(cur.drop_last() =~= prev);
            assert(cur.last() == s@[i as int]);
        }
        let x = match acc.checked_mul(10) {
            Some(x) => x,
            None => {
                proof {
                    lemma_out_of_range(s@, start, i as int, n as int);
                }
                return None;
            },
        };
        let y = match x.checked_sub(d) {
            Some(y) => y,
            None => {
                proof {
                    lemma_out_of_range(s@, start, i as int, n as int);
                }
                return None;
            },
        };
        acc = y;
        i = i + 1;
    }
    proof {
        assert(s@.subrange(start, i as int) == ds);
        assert(forall|k: int| 0 <= k < ds.len() ==> ds[k] == s@[k + start]);
        assert(all_digits(ds));
        if start == 0 {
            assert(ds =~= s@);
        }
    }
    if neg {
        Some(acc)
    } else if acc == i64::MIN {
        proof {
            assert(digits_val(ds) == -(i64::MIN as int));
        }
        None
    } else {
        Some(-acc)
    }
}

/// A string whose digit prefix through position `i` is already past the
/// `i64` range denotes no `i64`, whatever follows.
proof fn lemma_out_of_range(s: Seq<char>, start: int, i: int, n: int)
    requires
        0 <= start <= i < n == s.len(),
        start <= 1,
        (start == 1) <==> (s.len() > 0 && (s[0] == '+' || s[0] == '-')),
        forall|k: int| start <= k <= i ==> spec_is_digit(s[k]),
        10 * digits_val(s.subrange(start, i)) + spec_digit(s[i]) > i64::MAX as int + 1,
    ensures
        spec_parse_i64(s) is None,
{
    let ds = s.subrange(start, n);
    if start == 0 {
        assert(ds =~= s);
    }
    if start == 1 {
        assert(ds == s.subrange(1, s.len() as int));
    }
    if all_digits(ds) {
        let cur = s.subrange(start, i + 1);
        assert(cur.drop_last() =~= s.subrange(start, i));
        assert(cur.last() == s[i]);
        assert(cur =~= ds.subrange(0, i + 1 - start));
        lemma_digits_val_prefix(ds, i + 1 - start);
        assert(digits_val(ds) > i64::MAX as int + 1);
        let ds2 = if s.len() > 0 && (s[0] == '+' || s[0] == '-') {
            s.subrange(1, s.len() as int)
        } else {
            s
        };
        assert(ds2 == ds);
        assert(ds2.len() > 0 && all_digits(ds2));
        if s.len() > 0 && s[0] == '-' {
            assert(spec_parse_int(s) == Some(-digits_val(ds2)));
            assert(-digits_val(ds) < i64::MIN as int);
        } else {
            assert(spec_parse_int(s) == Some(digits_val(ds2)));
        }
    } else {
        assert(spec_parse_int(s) is None);
    }
}

/// Reads a sol number from its decimal string; a string that denotes no
/// `i64` is an error, as upstream records must carry a usable sol key.
pub fn sole_from_string(s: &str) -> (r: Result<Sole, InvalidSolNumber>)
    ensures
        match r {
            Ok(sole) => spec_parse_i64(s@) == Some(sole.0 as int),
            Err(e) => spec_parse_i64(s@) is None,
        },
{
    match i64_from_string(s) {
        Some(v) => Ok(Sole(v)),
        None => Err(InvalidSolNumber),
    }
}

// --- raw records ---

/// The four fields that must parse for a raw record to be kept.
pub open spec fn record_ok(raw: RawSoleRecord) -> bool {
    &&& spec_parse_i64(raw.sol@) is Some
    &&& plain_date_ok(raw.terrestrial_date@)
    &&& plain_time_ok(raw.sunrise@)
    &&& plain_time_ok(raw.sunset@)
}

/// The error a rejected raw record reports: the first field, in the order
/// sol, terrestrial date, sunrise, sunset, that did not parse.
pub open spec fn spec_record_error(raw: RawSoleRecord) -> RecordError {
    if spec_parse_i64(raw.sol@) is None {
        RecordError::BadSol
    } else if !plain_date_ok(raw.terrestrial_date@) {
        RecordError::BadDate
    } else if !plain_time_ok(raw.sunrise@) {
        RecordError::BadSunrise
    } else {
        RecordError::BadSunset
    }
}

/// How a kept reading relates to the raw record it came from.
pub open spec fn coerced_ok(raw: RawSoleRecord, sd: SoleData) -> bool {
    &&& sd.id@ == raw.id@
    &&& spec_parse_i64(raw.sol@) == Some(sd.sol.0 as int)
    &&& sd.terrestrial_date.year == date_year(raw.terrestrial_date@)
    &&& sd.terrestrial_date.month == date_month(raw.terrestrial_date@)
    &&& sd.terrestrial_date.day == date_day(raw.terrestrial_date@)
    &&& match sd.min_temp {
        Some(v) => spec_parse_i64(raw.min_temp@) == Some(v as int),
        None => spec_parse_i64(raw.min_temp@) is None,
    }
    &&& match sd.max_temp {
        Some(v) => spec_parse_i64(raw.max_temp@) == Some(v as int),
        None => spec_parse_i64(raw.max_temp@) is None,
    }
    &&& sd.sunrise.hour == time_hour(raw.sunrise@)
    &&& sd.sunrise.minute == time_minute(raw.sunrise@)
    &&& sd.sunset.hour == time_hour(raw.sunset@)
    &&& sd.sunset.minute == time_minute(raw.sunset@)
}

/// Coerces one raw upstream record into a typed reading. The sol number,
/// terrestrial date and the two times must parse or the record is rejected;
/// an unparseable temperature becomes `None`, never a sentinel value.
pub fn coerce_record(raw: RawSoleRecord) -> (r: Result<SoleData, RecordError>)
    ensures
        match r {
            Ok(sd) => record_ok(raw) && coerced_ok(raw, sd),
            Err(e) => !record_ok(raw) && e == spec_record_error(raw),
        },
{
    let sol = match sole_from_string(raw.sol.as_str()) {
        Ok(sole) => sole,
        Err(_) => { return Err(RecordError::BadSol) },
    };
    let terrestrial_date = match naivedate_from_string(raw.terrestrial_date.as_str()) {
        Some(d) => d,
        None => { return Err(RecordError::BadDate) },
    };
    let sunrise = match naivetime_from_string(raw.sunrise.as_str()) {
        Some(t) => t,
        None => { return Err(RecordError::BadSunrise) },
    };
    let sunset = match naivetime_from_string(raw.sunset.as_str()) {
        Some(t) => t,
        None => { return Err(RecordError::BadSunset) },
    };
    let min_temp = i64_from_string(raw.min_temp.as_str());
    let max_temp = i64_from_string(raw.max_temp.as_str());
    Ok(SoleData { id: raw.id, terrestrial_date, sol, min_temp, max_temp, sunrise, sunset })
}

/// Coerces a whole upstream batch, in order. One rejected record rejects the
/// batch, reporting the first failure; this mirrors upstream payload
/// handling, where a malformed record fails the fetch and the previous
/// snapshot stays authoritative.
pub fn coerce_records(raws: Vec<RawSoleRecord>) -> (r: Result<Vec<SoleData>, RecordError>)
    ensures
        match r {
            Ok(v) => {
                &&& v@.len() == raws@.len()
                &&& forall|k: int|
                    0 <= k < raws@.len() ==> record_ok(#[trigger] raws@[k]) && coerced_ok(
                        raws@[k],
                        v@[k],
                    )
            },
            Err(e) => exists|k: int|
                {
                    &&& 0 <= k < raws@.len()
                    &&& !record_ok(#[trigger] raws@[k])
                    &&& e == spec_record_error(raws@[k])
                    &&& forall|j: int| 0 <= j < k ==> record_ok(#[trigger] raws@[j])
                },
        },
{
    let ghost orig = raws@;
    let mut pending = raws;
    let mut out: Vec<SoleData> = Vec::new();
    #[verifier::loop_isolation(false)]
    while pending.len() > 0
        invariant
            out@.len() + pending@.len() == orig.len(),
            pending@ == orig.subrange(out@.len() as int, orig.len() as int),
            forall|k: int|
                0 <= k < out@.len() ==> record_ok(#[trigger] orig[k]) && coerced_ok(
                    orig[k],
                    out@[k],
                ),
        decreases pending@.len(),
    {
        let ghost idx = out@.len() as int;
        let raw = pending.remove(0);
        proof {
            assert(raw == orig[idx]);
            assert(pending@ =~= orig.subrange(idx + 1, orig.len() as int));
        }
        match coerce_record(raw) {
            Ok(sd) => {
                out.push(sd);
            },
            Err(e) => {
                proof {
                    assert({
                        &&& 0 <= idx < orig.len()
                        &&& !record_ok(orig[idx])
                        &&& e == spec_record_error(orig[idx])
                        &&& forall|j: int| 0 <= j < idx ==> record_ok(#[trigger] orig[j])
                    });
                    assert(exists|k: int|
                        {
                            &&& 0 <= k < orig.len()
                            &&& !record_ok(#[trigger] orig[k])
                            &&& e == spec_record_error(orig[k])
                            &&& forall|j: int| 0 <= j < k ==> record_ok(#[trigger] orig[j])
                        });
                }
                return Err(e);
            },
        }
    }
    proof {
        assert(out@.len() == orig.len());
    }
    Ok(out)
}

} // verus!
