//! Mars (Gale Crater) weather readings indexed by Martian solar day ("sol").
//!
//! The library holds the logic of the service: converting an Earth calendar
//! date to a sol number, parsing caller-supplied date strings, coercing raw
//! upstream records into typed readings, the sol-indexed snapshot cache with
//! wholesale replacement, and the query service that composes them. Network
//! transport, HTTP framing and the background timer live outside the library
//! and hand it plain values.

pub mod cache;
pub mod conversion;
pub mod dates;
pub mod query;
pub mod records;
pub mod refresh;

use vstd::prelude::*;

verus! {

/// A Martian solar day number, the key under which weather readings are cached.
#[derive(Debug, PartialEq, Eq, Structural, Hash, Clone, Copy)]
pub struct Sole(pub i64);

impl From<i64> for Sole {
    fn from(value: i64) -> (r: Self) {
        Sole(value)
    }
}

impl vstd::std_specs::convert::FromSpecImpl<i64> for Sole {
    open spec fn obeys_from_spec() -> bool {
        true
    }

    open spec fn from_spec(value: i64) -> Self {
        Sole(value)
    }
}

} // verus!
