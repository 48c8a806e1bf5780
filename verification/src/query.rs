//! The query service: answering "what was the weather on this date".
//!
//! A query composes the date parser, the sol conversion and the cache: the
//! supplied date string is parsed, the instant it denotes is converted to a
//! sol number, and that sol is looked up in the current snapshot. A missing
//! date asks for the usage help; an unparseable one is a client error; a sol
//! absent from the cache is an empty result, not an error.

use crate::cache::CachedSolesData;
use crate::conversion::{calculate_no_of_martian_sol_elapsed, sol_number};
use crate::dates::{parse_date_from_string, spec_parse_date, InvalidDateFormat};
use crate::records::SoleData;
use crate::Sole;
use vstd::prelude::*;

verus! {

/// The outcome of one query.
pub enum QueryResult<'a> {
    /// No date was supplied: not an error; the caller is told how to ask.
    Usage,
    /// The supplied date string matched neither accepted format.
    InvalidDate(InvalidDateFormat),
    /// The reading cached for the sol the date falls in.
    Found(&'a SoleData),
    /// The sol the date falls in is not cached: a valid empty outcome, not
    /// an error.
    NoData,
}

/// Answers one query against the current snapshot: parses the date string
/// if one was supplied, converts it to a sol number, and looks that sol up.
pub fn answer<'a>(raw_date: Option<&str>, cache: &'a CachedSolesData) -> (r: QueryResult<'a>)
    ensures
        match raw_date {
            None => r is Usage,
            Some(s) => match spec_parse_date(s@) {
                None => r is InvalidDate,
                Some(ts) => {
                    let sol = sol_number(ts) as i64;
                    if cache.snapshot().contains_key(sol) {
                        r matches QueryResult::Found(sd) && *sd == cache.snapshot()[sol]
                    } else {
                        r is NoData
                    }
                },
            },
        },
{
    let s = match raw_date {
        None => { return QueryResult::Usage },
        Some(s) => s,
    };
    let ts = match parse_date_from_string(s) {
        Ok(ts) => ts,
        Err(e) => { return QueryResult::InvalidDate(e) },
    };
    let sol = calculate_no_of_martian_sol_elapsed(ts);
    match cache.get_data_for_sol(Sole(sol)) {
        Some(sd) => QueryResult::Found(sd),
        None => QueryResult::NoData,
    }
}

} // verus!
