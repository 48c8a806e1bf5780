//! The refresh step: what one fetch cycle does to the cache.
//!
//! A background task fetches a fresh batch on a fixed interval, outside any
//! lock, and hands the outcome to `apply_refresh`. A successful fetch
//! replaces the snapshot wholesale; a failed one changes nothing, and the
//! stale snapshot stays authoritative until the next successful cycle. The
//! task itself — the timer, the network call, cancellation on shutdown —
//! lives outside the library.

use crate::cache::CachedSolesData;
use crate::records::SoleData;
use std::collections::HashMap;
use vstd::prelude::*;

verus! {

/// An upstream fetch failed. The failure never reaches a query caller; it
/// is only reported by the refresh task, which keeps looping.
#[derive(Debug, Clone)]
pub struct FetchError {
    pub message: String,
}

/// Applies one refresh cycle's outcome, stamped with the instant `now`: a
/// fetched batch replaces the snapshot wholesale, a failure leaves the cache
/// exactly as it was.
pub fn apply_refresh(
    cache: &mut CachedSolesData,
    fetched: Result<HashMap<i64, SoleData>, FetchError>,
    now: i64,
)
    ensures
        match fetched {
            Ok(data) => final (cache).snapshot() == data@ && final (cache).stamp() == now,
            Err(e) => *final (cache) == *old(cache),
        },
{
    match fetched {
        Ok(data) => {
            cache.update(data, now);
        },
        Err(_) => {},
    }
}

} // verus!
