//! The sol-indexed snapshot cache.
//!
//! The cache holds one snapshot: a mapping from sol number to reading,
//! together with the instant it was installed. A snapshot is only ever
//! replaced wholesale — `update` installs the new mapping and its stamp as
//! one value, never merging into the old one — so a reader holding `&self`
//! sees one generation of the pair, never a mixture. The surrounding service
//! shares the cache behind a reader/writer lock and calls `update` with the
//! lock held exclusively, which keeps the swap atomic for concurrent readers.

use crate::records::SoleData;
use crate::Sole;
use std::collections::HashMap;
use vstd::prelude::*;

verus! {

broadcast use vstd::std_specs::hash::group_hash_axioms;

/// The mapping a batch of readings installs: keyed by sol number, a later
/// record for the same sol replacing an earlier one.
pub open spec fn spec_sole_map(s: Seq<SoleData>) -> Map<i64, SoleData>
    decreases s.len(),
{
    if s.len() == 0 {
        Map::empty()
    } else {
        spec_sole_map(s.drop_last()).insert(s.last().sol.0, s.last())
    }
}

/// Folds a batch of readings into a map keyed by sol number; two readings
/// for the same sol are duplicates and the last write wins.
pub fn build_sole_map(soles: Vec<SoleData>) -> (m: HashMap<i64, SoleData>)
    ensures
        m@ == spec_sole_map(soles@),
{
    let ghost orig = soles@;
    let mut pending = soles;
    let mut m: HashMap<i64, SoleData> = HashMap::new();
    #[verifier::loop_isolation(false)]
    while pending.len() > 0
        invariant
            pending@.len() <= orig.len(),
            pending@ == orig.subrange(orig.len() - pending@.len(), orig.len() as int),
            m@ == spec_sole_map(orig.subrange(0, orig.len() - pending@.len())),
        decreases pending@.len(),
    {
        let ghost done = orig.len() - pending@.len();
        let sole = pending.remove(0);
        proof {
            assert(sole == orig[done]);
            assert(pending@ =~= orig.subrange(done + 1, orig.len() as int));
        }
        let key = sole.sol.0;
        m.insert(key, sole);
        proof {
            let cur = orig.subrange(0, done + 1);
            assert(cur.drop_last() =~= orig.subrange(0, done));
            assert(cur.last() == orig[done]);
        }
    }
    proof {
        assert(orig.subrange(0, orig.len() as int) =~= orig);
    }
    m
}

/// The cache: one snapshot of readings keyed by sol number, and the instant
/// it was installed (Unix seconds). The two are one value, so they always
/// belong to the same generation.
pub struct CachedSolesData {
    updated_at: i64,
    data: HashMap<i64, SoleData>,
}

impl CachedSolesData {
    /// The mapping the current snapshot holds.
    pub closed spec fn snapshot(&self) -> Map<i64, SoleData> {
        self.data@
    }

    /// When the current snapshot was installed, in Unix seconds.
    pub closed spec fn stamp(&self) -> i64 {
        self.updated_at
    }

    /// A fresh cache holding `data`, stamped with the instant `now`.
    pub fn new(data: HashMap<i64, SoleData>, now: i64) -> (c: Self)
        ensures
            c.snapshot() == data@,
            c.stamp() == now,
    {
        CachedSolesData { updated_at: now, data }
    }

    /// The reading the current snapshot holds for `sol`, or `None` when that
    /// sol is not cached. Never an error: an absent sol is a valid empty
    /// outcome.
    pub fn get_data_for_sol(&self, sol: Sole) -> (r: Option<&SoleData>)
        ensures
            match r {
                Some(sd) => self.snapshot().contains_key(sol.0) && *sd == self.snapshot()[sol.0],
                None => !self.snapshot().contains_key(sol.0),
            },
    {
        self.data.get(&sol.0)
    }

    /// When the current snapshot was installed, in Unix seconds.
    pub fn last_updated_at(&self) -> (t: i64)
        ensures
            t == self.stamp(),
    {
        self.updated_at
    }

    /// Replaces the snapshot wholesale: the new mapping and its stamp are
    /// installed together, and nothing of the old snapshot remains.
    pub fn update(&mut self, data: HashMap<i64, SoleData>, now: i64)
        ensures
            final (self).snapshot() == data@,
            final (self).stamp() == now,
    {
        self.data = data;
        self.updated_at = now;
    }
}

} // verus!
