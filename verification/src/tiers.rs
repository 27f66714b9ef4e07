//! The two persistence tiers.
//!
//! The hot tier is a low-latency key/value store holding ephemeral
//! projections: cached ranking pages, engagement counters, latest telemetry,
//! and convoy rosters. Its `available` flag models transport health: while
//! it is down every operation returns a `HotStore` error and changes
//! nothing. The cold tier is the wide-column source of truth: leaderboard
//! rows, commutative accuracy counters, engagement records (stored twice,
//! by convoy and by asset), convoys, waypoints, and TTL-bearing telemetry.

use vstd::prelude::*;
use crate::entities::{Convoy, Drone, Engagement, Telemetry, Waypoint};
use crate::errors::PersistenceError;
use crate::kv::{find_key, keys_unique, keys_unique2, remove_key, spec_lookup, upsert};
use crate::ranking::{EntryModel, LeaderboardEntry, spec_ranking_sorted};

verus! {

// =============================================================================
// CONFIGURATION
// =============================================================================

/// Per-namespace hot-tier TTLs, in seconds.
#[derive(Clone, Copy, PartialEq, Eq, Structural, Debug)]
pub struct CacheTtl {
    pub telemetry_secs: u64,
    pub drone_state_secs: u64,
    pub leaderboard_secs: u64,
    pub convoy_summary_secs: u64,
    pub engagement_stats_secs: u64,
    pub convoy_roster_secs: u64,
}

impl Default for CacheTtl {
    /// The default TTLs: telemetry 10 s, asset state 60 s, ranking 300 s,
    /// convoy summary 120 s, engagement stats 300 s, roster 3600 s.
    fn default() -> (t: CacheTtl)
        ensures
            t.telemetry_secs == 10,
            t.drone_state_secs == 60,
            t.leaderboard_secs == 300,
            t.convoy_summary_secs == 120,
            t.engagement_stats_secs == 300,
            t.convoy_roster_secs == 3600,
    {
        CacheTtl {
            telemetry_secs: 10,
            drone_state_secs: 60,
            leaderboard_secs: 300,
            convoy_summary_secs: 120,
            engagement_stats_secs: 300,
            convoy_roster_secs: 3600,
        }
    }
}

/// Hot-tier connection configuration.
#[derive(Debug)]
pub struct CacheConfig {
    pub url: String,
    pub pool_size: usize,
    pub ttl: CacheTtl,
}

impl Default for CacheConfig {
    fn default() -> (c: CacheConfig)
        ensures
            c.url@ == "redis://127.0.0.1:6379"@,
            c.pool_size == 10,
            c.ttl.telemetry_secs == 10,
            c.ttl.drone_state_secs == 60,
            c.ttl.leaderboard_secs == 300,
            c.ttl.convoy_summary_secs == 120,
            c.ttl.engagement_stats_secs == 300,
            c.ttl.convoy_roster_secs == 3600,
    {
        CacheConfig {
            url: String::from_str("redis://127.0.0.1:6379"),
            pool_size: 10,
            ttl: CacheTtl::default(),
        }
    }
}

/// Hot-tier connection settings as the facade configuration carries them.
#[derive(Debug)]
pub struct RedisConfig {
    pub url: String,
    pub pool_size: usize,
}

impl Default for RedisConfig {
    fn default() -> (c: RedisConfig)
        ensures
            c.url@ == "redis://127.0.0.1:6379"@,
            c.pool_size == 10,
    {
        RedisConfig { url: String::from_str("redis://127.0.0.1:6379"), pool_size: 10 }
    }
}

/// Cold-tier connection configuration.
#[derive(Debug)]
pub struct ScyllaConfig {
    pub hosts: Vec<String>,
    pub keyspace: String,
    pub username: Option<String>,
    pub password: Option<String>,
}

impl Default for ScyllaConfig {
    fn default() -> (c: ScyllaConfig)
        ensures
            c.hosts@.len() == 1,
            c.hosts@[0]@ == "127.0.0.1:9042"@,
            c.keyspace@ == "drone_ops"@,
            c.username is None,
            c.password is None,
    {
        let mut hosts: Vec<String> = Vec::new();
        hosts.push(String::from_str("127.0.0.1:9042"));
        ScyllaConfig {
            hosts,
            keyspace: String::from_str("drone_ops"),
            username: None,
            password: None,
        }
    }
}

// =============================================================================
// SHARED HELPERS
// =============================================================================

/// The models of a sequence of entries.
pub open spec fn entry_models(s: Seq<LeaderboardEntry>) -> Seq<EntryModel> {
    s.map_values(|e: LeaderboardEntry| e@)
}

/// An exact copy of a vector of entries, model for model, with every field
/// preserved.
pub fn clone_entries(v: &Vec<LeaderboardEntry>) -> (r: Vec<LeaderboardEntry>)
    ensures
        entry_models(r@) == entry_models(v@),
        r@.len() == v@.len(),
        forall|i: int| 0 <= i < v@.len() ==> (#[trigger] r@[i])@ == v@[i]@,
{
    let mut r: Vec<LeaderboardEntry> = Vec::new();
    let mut i: usize = 0;
    while i < v.len()
        invariant
            i <= v@.len(),
            r@.len() == i,
            forall|k: int| 0 <= k < i ==> (#[trigger] r@[k])@ == v@[k]@,
        decreases v@.len() - i,
    {
        r.push(v[i].duplicate());
        i += 1;
    }
    proof {
        assert(entry_models(r@) =~= entry_models(v@));
    }
    r
}

/// A page is well formed when its entries are internally consistent, in
/// ranking order, and ranked 1 upward.
pub open spec fn spec_wf_page(p: Seq<LeaderboardEntry>) -> bool {
    &&& spec_ranking_sorted(p)
    &&& forall|k: int| 0 <= k < p.len() ==> (#[trigger] p[k]).rank == k + 1
    &&& forall|k: int| 0 <= k < p.len() ==> (#[trigger] p[k]).wf()
}

/// Field equality follows from model equality.
pub proof fn lemma_model_fields(a: LeaderboardEntry, b: LeaderboardEntry)
    requires
        a@ == b@,
    ensures
        a.convoy_id == b.convoy_id,
        a.drone_id == b.drone_id,
        a.platform_type == b.platform_type,
        a.stats == b.stats,
        a.accuracy_x100 == b.accuracy_x100,
        a.rank == b.rank,
        a.updated_at_ms == b.updated_at_ms,
{
}

// =============================================================================
// HOT STORE
// =============================================================================

/// The hot tier. `available` models transport health; the fault-injection
/// hook `set_available` lets a driver or test take the tier down.
pub struct HotStore {
    pub available: bool,
    pub leaderboards: Vec<(u128, Vec<LeaderboardEntry>)>,
    pub counters: Vec<(u128, (u64, u64))>,
    pub latest_telemetry: Vec<(u128, Telemetry)>,
    pub rosters: Vec<(u128, Vec<u128>)>,
}

impl HotStore {
    pub open spec fn wf(self) -> bool {
        &&& keys_unique(self.leaderboards@)
        &&& keys_unique(self.counters@)
        &&& keys_unique(self.latest_telemetry@)
        &&& keys_unique(self.rosters@)
        &&& forall|i: int|
            0 <= i < self.leaderboards@.len() ==> spec_wf_page(
                (#[trigger] self.leaderboards@[i]).1@,
            )
        &&& forall|i: int|
            0 <= i < self.counters@.len() ==> (#[trigger] self.counters@[i]).1.1
                <= self.counters@[i].1.0
    }

    /// A fresh, empty, healthy hot tier.
    pub fn new() -> (h: HotStore)
        ensures
            h.wf(),
            h.available,
            h.leaderboards@.len() == 0,
            h.counters@.len() == 0,
            h.latest_telemetry@.len() == 0,
            h.rosters@.len() == 0,
    {
        HotStore {
            available: true,
            leaderboards: Vec::new(),
            counters: Vec::new(),
            latest_telemetry: Vec::new(),
            rosters: Vec::new(),
        }
    }

    /// Fault injection: set the modeled transport health.
    pub fn set_available(&mut self, up: bool)
        requires
            old(self).wf(),
        ensures
            final(self).wf(),
            final(self).available == up,
            final(self).leaderboards == old(self).leaderboards,
            final(self).counters == old(self).counters,
            final(self).latest_telemetry == old(self).latest_telemetry,
            final(self).rosters == old(self).rosters,
    {
        self.available = up;
    }

    /// The error every operation surfaces while the tier is down.
    fn transport_error(&self) -> (e: PersistenceError)
        ensures
            e is HotStore,
    {
        PersistenceError::HotStore(String::from_str("hot tier transport unavailable"))
    }

    /// Read the cached ranking page for a convoy. A missing key is a miss,
    /// not an error.
    pub fn get_leaderboard(&self, convoy_id: u128) -> (r: Result<
        Option<Vec<LeaderboardEntry>>,
        PersistenceError,
    >)
        requires
            self.wf(),
        ensures
            !self.available ==> (r matches Err(e) && e is HotStore),
            self.available ==> match spec_lookup(self.leaderboards@, convoy_id) {
                Some(q) => r matches Ok(Some(p)) && entry_models(p@) == entry_models(q@)
                    && spec_wf_page(p@),
                None => r matches Ok(o) && o is None,
            },
    {
        if !self.available {
            return Err(self.transport_error());
        }
        match find_key(&self.leaderboards, convoy_id) {
            Some(i) => {
                let page = clone_entries(&self.leaderboards[i].1);
                proof {
                    let q = self.leaderboards@[i as int].1;
                    assert(spec_wf_page(q@));
                    assert forall|k: int| 0 <= k < page@.len() implies (#[trigger] page@[k]).wf()
                        && page@[k].rank == k + 1 by {
                        lemma_model_fields(page@[k], q@[k]);
                    }
                    assert forall|p: int, k: int| 0 <= p < k < page@.len() implies !crate::ranking::spec_outranks(
                        #[trigger] page@[k],
                        #[trigger] page@[p],
                    ) by {
                        lemma_model_fields(page@[k], q@[k]);
                        lemma_model_fields(page@[p], q@[p]);
                        assert(!crate::ranking::spec_outranks(q@[k], q@[p]));
                    }
                }
                Ok(Some(page))
            },
            None => Ok(None),
        }
    }

    /// Cache the ranking page for a convoy, renewing its TTL. Nothing else
    /// changes.
    pub fn set_leaderboard(&mut self, convoy_id: u128, page: &Vec<LeaderboardEntry>) -> (r: Result<
        (),
        PersistenceError,
    >)
        requires
            old(self).wf(),
            spec_wf_page(page@),
        ensures
            final(self).wf(),
            final(self).available == old(self).available,
            !old(self).available ==> r is Err && *final(self) == *old(self),
            old(self).available ==> {
                &&& r is Ok
                &&& spec_lookup(final(self).leaderboards@, convoy_id) matches Some(q)
                    && entry_models(q@) == entry_models(page@)
                &&& forall|c2: u128|
                    c2 != convoy_id ==> spec_lookup(final(self).leaderboards@, c2) == spec_lookup(
                        old(self).leaderboards@,
                        c2,
                    )
                &&& final(self).counters == old(self).counters
                &&& final(self).latest_telemetry == old(self).latest_telemetry
                &&& final(self).rosters == old(self).rosters
            },
    {
        if !self.available {
            return Err(self.transport_error());
        }
        let copy = clone_entries(page);
        proof {
            assert forall|k: int| 0 <= k < copy@.len() implies (#[trigger] copy@[k]).wf()
                && copy@[k].rank == k + 1 by {
                lemma_model_fields(copy@[k], page@[k]);
            }
            assert forall|p: int, k: int| 0 <= p < k < copy@.len() implies !crate::ranking::spec_outranks(
                #[trigger] copy@[k],
                #[trigger] copy@[p],
            ) by {
                lemma_model_fields(copy@[k], page@[k]);
                lemma_model_fields(copy@[p], page@[p]);
                assert(!crate::ranking::spec_outranks(page@[k], page@[p]));
            }
            assert(spec_wf_page(copy@));
        }
        let ghost lb0 = self.leaderboards@;
        upsert(&mut self.leaderboards, convoy_id, copy);
        proof {
            assert forall|i: int| 0 <= i < self.leaderboards@.len() implies spec_wf_page(
                (#[trigger] self.leaderboards@[i]).1@,
            ) by {
                let k = self.leaderboards@[i].0;
                crate::kv::lemma_lookup_unique(self.leaderboards@, k, i);
                if k != convoy_id {
                    crate::kv::lemma_lookup_index(lb0, k, self.leaderboards@[i].1);
                }
            }
        }
        Ok(())
    }

    /// Drop the cached ranking page for a convoy.
    pub fn invalidate_leaderboard(&mut self, convoy_id: u128) -> (r: Result<(), PersistenceError>)
        requires
            old(self).wf(),
        ensures
            final(self).wf(),
            final(self).available == old(self).available,
            !old(self).available ==> r is Err && *final(self) == *old(self),
            old(self).available ==> {
                &&& r is Ok
                &&& spec_lookup(final(self).leaderboards@, convoy_id) is None
                &&& forall|c2: u128|
                    c2 != convoy_id ==> spec_lookup(final(self).leaderboards@, c2) == spec_lookup(
                        old(self).leaderboards@,
                        c2,
                    )
                &&& final(self).counters == old(self).counters
                &&& final(self).latest_telemetry == old(self).latest_telemetry
                &&& final(self).rosters == old(self).rosters
            },
    {
        if !self.available {
            return Err(self.transport_error());
        }
        let ghost lb0 = self.leaderboards@;
        remove_key(&mut self.leaderboards, convoy_id);
        proof {
            assert forall|i: int| 0 <= i < self.leaderboards@.len() implies spec_wf_page(
                (#[trigger] self.leaderboards@[i]).1@,
            ) by {
                let k = self.leaderboards@[i].0;
                crate::kv::lemma_lookup_unique(self.leaderboards@, k, i);
                crate::kv::lemma_lookup_index(lb0, k, self.leaderboards@[i].1);
            }
        }
        Ok(())
    }

    /// Atomically bump the engagement counters for an asset: the total
    /// rises by one, the hit count by one exactly on a hit, and the new
    /// pair is returned. Fails only while the tier is down or when the
    /// stored total is at the integer limit.
    pub fn increment_engagements(&mut self, drone_id: u128, hit: bool) -> (r: Result<
        (u64, u64),
        PersistenceError,
    >)
        requires
            old(self).wf(),
        ensures
            final(self).wf(),
            final(self).available == old(self).available,
            !old(self).available ==> r is Err && *final(self) == *old(self),
            old(self).available ==> {
                let prev = match spec_lookup(old(self).counters@, drone_id) {
                    Some(p) => p,
                    None => (0u64, 0u64),
                };
                &&& prev.0 < u64::MAX ==> {
                    &&& r matches Ok(p) && p == ((prev.0 + 1) as u64, if hit {
                        (prev.1 + 1) as u64
                    } else {
                        prev.1
                    })
                    &&& spec_lookup(final(self).counters@, drone_id) matches Some(q) && q == (
                        (prev.0 + 1) as u64,
                        if hit {
                            (prev.1 + 1) as u64
                        } else {
                            prev.1
                        },
                    )
                    &&& forall|d2: u128|
                        d2 != drone_id ==> spec_lookup(final(self).counters@, d2) == spec_lookup(
                            old(self).counters@,
                            d2,
                        )
                }
                &&& prev.0 == u64::MAX ==> r is Err && *final(self) == *old(self)
                &&& final(self).leaderboards == old(self).leaderboards
                &&& final(self).latest_telemetry == old(self).latest_telemetry
                &&& final(self).rosters == old(self).rosters
            },
    {
        if !self.available {
            return Err(self.transport_error());
        }
        let prev: (u64, u64) = match find_key(&self.counters, drone_id) {
            Some(i) => self.counters[i].1,
            None => (0, 0),
        };
        if prev.0 == u64::MAX {
            return Err(
                PersistenceError::WriteConflict(String::from_str("engagement counter at limit")),
            );
        }
        let next = (prev.0 + 1, if hit {
            prev.1 + 1
        } else {
            prev.1
        });
        let ghost ct0 = self.counters@;
        upsert(&mut self.counters, drone_id, next);
        proof {
            assert forall|i: int| 0 <= i < self.counters@.len() implies (#[trigger] self.counters@[i]).1.1
                <= self.counters@[i].1.0 by {
                let k = self.counters@[i].0;
                crate::kv::lemma_lookup_unique(self.counters@, k, i);
                if k != drone_id {
                    crate::kv::lemma_lookup_index(ct0, k, self.counters@[i].1);
                }
            }
        }
        Ok(next)
    }

    /// Cache the latest telemetry snapshot for an asset.
    pub fn set_latest_telemetry(&mut self, drone_id: u128, snapshot: &Telemetry) -> (r: Result<
        (),
        PersistenceError,
    >)
        requires
            old(self).wf(),
        ensures
            final(self).wf(),
            final(self).available == old(self).available,
            !old(self).available ==> r is Err && *final(self) == *old(self),
            old(self).available ==> {
                &&& r is Ok
                &&& spec_lookup(final(self).latest_telemetry@, drone_id) matches Some(t) && t@
                    == snapshot@
                &&& forall|d2: u128|
                    d2 != drone_id ==> spec_lookup(final(self).latest_telemetry@, d2)
                        == spec_lookup(old(self).latest_telemetry@, d2)
                &&& final(self).leaderboards == old(self).leaderboards
                &&& final(self).counters == old(self).counters
                &&& final(self).rosters == old(self).rosters
            },
    {
        if !self.available {
            return Err(self.transport_error());
        }
        upsert(&mut self.latest_telemetry, drone_id, snapshot.duplicate());
        Ok(())
    }

    /// Read the cached latest telemetry for an asset.
    pub fn get_latest_telemetry(&self, drone_id: u128) -> (r: Result<
        Option<Telemetry>,
        PersistenceError,
    >)
        requires
            self.wf(),
        ensures
            !self.available ==> r is Err,
            self.available ==> match spec_lookup(self.latest_telemetry@, drone_id) {
                Some(t) => r matches Ok(Some(p)) && p@ == t@,
                None => r matches Ok(o) && o is None,
            },
    {
        if !self.available {
            return Err(self.transport_error());
        }
        match find_key(&self.latest_telemetry, drone_id) {
            Some(i) => Ok(Some(self.latest_telemetry[i].1.duplicate())),
            None => Ok(None),
        }
    }

    /// Add an asset to a convoy roster; returns whether it was new.
    pub fn add_to_convoy_roster(&mut self, convoy_id: u128, drone_id: u128) -> (r: Result<
        bool,
        PersistenceError,
    >)
        requires
            old(self).wf(),
        ensures
            final(self).wf(),
            final(self).available == old(self).available,
            !old(self).available ==> r is Err && *final(self) == *old(self),
            old(self).available ==> {
                let prev = match spec_lookup(old(self).rosters@, convoy_id) {
                    Some(p) => p@,
                    None => Seq::<u128>::empty(),
                };
                &&& r matches Ok(added) && added == !prev.contains(drone_id)
                &&& spec_lookup(final(self).rosters@, convoy_id) matches Some(q) && q@ == (
                    if prev.contains(drone_id) {
                        prev
                    } else {
                        prev.push(drone_id)
                    })
                &&& forall|c2: u128|
                    c2 != convoy_id ==> spec_lookup(final(self).rosters@, c2) == spec_lookup(
                        old(self).rosters@,
                        c2,
                    )
                &&& final(self).leaderboards == old(self).leaderboards
                &&& final(self).counters == old(self).counters
                &&& final(self).latest_telemetry == old(self).latest_telemetry
            },
    {
        if !self.available {
            return Err(self.transport_error());
        }
        let mut roster: Vec<u128> = match find_key(&self.rosters, convoy_id) {
            Some(i) => crate::entities::clone_ids(&self.rosters[i].1),
            None => Vec::new(),
        };
        let mut present = false;
        let mut i: usize = 0;
        while i < roster.len()
            invariant
                i <= roster@.len(),
                present == roster@.subrange(0, i as int).contains(drone_id),
            decreases roster@.len() - i,
        {
            if roster[i] == drone_id {
                present = true;
                proof {
                    assert(roster@.subrange(0, i + 1).contains(drone_id)) by {
                        assert(roster@.subrange(0, i + 1)[i as int] == drone_id);
                    }
                }
            } else {
                proof {
                    assert(roster@.subrange(0, i + 1) =~= roster@.subrange(0, i as int).push(
                        roster@[i as int],
                    ));
                }
            }
            i += 1;
        }
        proof {
            assert(roster@.subrange(0, roster@.len() as int) =~= roster@);
        }
        if !present {
            roster.push(drone_id);
        }
        upsert(&mut self.rosters, convoy_id, roster);
        Ok(!present)
    }

    /// Read a convoy roster; empty when nothing is cached.
    pub fn get_convoy_roster(&self, convoy_id: u128) -> (r: Result<Vec<u128>, PersistenceError>)
        requires
            self.wf(),
        ensures
            !self.available ==> r is Err,
            self.available ==> (r matches Ok(ids) && ids@ == (match spec_lookup(
                self.rosters@,
                convoy_id,
            ) {
                Some(p) => p@,
                None => Seq::<u128>::empty(),
            })),
    {
        if !self.available {
            return Err(self.transport_error());
        }
        match find_key(&self.rosters, convoy_id) {
            Some(i) => Ok(crate::entities::clone_ids(&self.rosters[i].1)),
            None => Ok(Vec::new()),
        }
    }

    /// Drop the per-asset keys: counters and latest telemetry.
    pub fn invalidate_drone(&mut self, drone_id: u128) -> (r: Result<(), PersistenceError>)
        requires
            old(self).wf(),
        ensures
            final(self).wf(),
            final(self).available == old(self).available,
            !old(self).available ==> r is Err && *final(self) == *old(self),
            old(self).available ==> {
                &&& r is Ok
                &&& spec_lookup(final(self).counters@, drone_id) is None
                &&& spec_lookup(final(self).latest_telemetry@, drone_id) is None
                &&& forall|d2: u128|
                    d2 != drone_id ==> spec_lookup(final(self).counters@, d2) == spec_lookup(
                        old(self).counters@,
                        d2,
                    ) && spec_lookup(final(self).latest_telemetry@, d2) == spec_lookup(
                        old(self).latest_telemetry@,
                        d2,
                    )
                &&& final(self).leaderboards == old(self).leaderboards
                &&& final(self).rosters == old(self).rosters
            },
    {
        if !self.available {
            return Err(self.transport_error());
        }
        let ghost ct0 = self.counters@;
        remove_key(&mut self.counters, drone_id);
        remove_key(&mut self.latest_telemetry, drone_id);
        proof {
            assert forall|i: int| 0 <= i < self.counters@.len() implies (#[trigger] self.counters@[i]).1.1
                <= self.counters@[i].1.0 by {
                let k = self.counters@[i].0;
                crate::kv::lemma_lookup_unique(self.counters@, k, i);
                crate::kv::lemma_lookup_index(ct0, k, self.counters@[i].1);
            }
        }
        Ok(())
    }

    /// Drop the per-convoy keys: the cached ranking page and the roster.
    pub fn invalidate_convoy(&mut self, convoy_id: u128) -> (r: Result<(), PersistenceError>)
        requires
            old(self).wf(),
        ensures
            final(self).wf(),
            final(self).available == old(self).available,
            !old(self).available ==> r is Err && *final(self) == *old(self),
            old(self).available ==> {
                &&& r is Ok
                &&& spec_lookup(final(self).leaderboards@, convoy_id) is None
                &&& spec_lookup(final(self).rosters@, convoy_id) is None
                &&& forall|c2: u128|
                    c2 != convoy_id ==> spec_lookup(final(self).leaderboards@, c2) == spec_lookup(
                        old(self).leaderboards@,
                        c2,
                    ) && spec_lookup(final(self).rosters@, c2) == spec_lookup(
                        old(self).rosters@,
                        c2,
                    )
                &&& final(self).counters == old(self).counters
                &&& final(self).latest_telemetry == old(self).latest_telemetry
            },
    {
        if !self.available {
            return Err(self.transport_error());
        }
        let ghost lb0 = self.leaderboards@;
        remove_key(&mut self.leaderboards, convoy_id);
        remove_key(&mut self.rosters, convoy_id);
        proof {
            assert forall|i: int| 0 <= i < self.leaderboards@.len() implies spec_wf_page(
                (#[trigger] self.leaderboards@[i]).1@,
            ) by {
                let k = self.leaderboards@[i].0;
                crate::kv::lemma_lookup_unique(self.leaderboards@, k, i);
                crate::kv::lemma_lookup_index(lb0, k, self.leaderboards@[i].1);
            }
        }
        Ok(())
    }
}

// =============================================================================
// COLD STORE
// =============================================================================

/// The cold tier: the authoritative wide-column store. Leaderboard rows and
/// counters are keyed by (convoy, asset); engagements are stored twice, by
/// convoy and by asset; telemetry rows carry their hour bucket.
pub struct ColdStore {
    pub rows: Vec<((u128, u128), LeaderboardEntry)>,
    pub counters: Vec<((u128, u128), (u64, u64))>,
    pub engagements: Vec<Engagement>,
    pub engagements_by_drone: Vec<Engagement>,
    pub convoys: Vec<(u128, Convoy)>,
    pub drones: Vec<((u128, u128), Drone)>,
    pub waypoints: Vec<((u128, u128), Waypoint)>,
    pub telemetry: Vec<Telemetry>,
}

impl ColdStore {
    pub open spec fn wf(self) -> bool {
        &&& keys_unique2(self.rows@)
        &&& keys_unique2(self.counters@)
        &&& keys_unique(self.convoys@)
        &&& keys_unique2(self.drones@)
        &&& keys_unique2(self.waypoints@)
        &&& forall|i: int|
            0 <= i < self.rows@.len() ==> (#[trigger] self.rows@[i]).1.wf()
                && self.rows@[i].1.convoy_id == self.rows@[i].0.0 && self.rows@[i].1.drone_id
                == self.rows@[i].0.1
        &&& forall|i: int|
            0 <= i < self.counters@.len() ==> (#[trigger] self.counters@[i]).1.1
                <= self.counters@[i].1.0
        &&& forall|i: int|
            0 <= i < self.convoys@.len() ==> (#[trigger] self.convoys@[i]).1.convoy_id
                == self.convoys@[i].0
        &&& forall|i: int|
            0 <= i < self.drones@.len() ==> (#[trigger] self.drones@[i]).1.convoy_id
                == self.drones@[i].0.0 && self.drones@[i].1.drone_id == self.drones@[i].0.1
        &&& forall|i: int|
            0 <= i < self.waypoints@.len() ==> (#[trigger] self.waypoints@[i]).1.drone_id
                == self.waypoints@[i].0.0 && self.waypoints@[i].1.sequence_number as u128
                == self.waypoints@[i].0.1
    }

    /// A fresh, empty cold store.
    pub fn new() -> (c: ColdStore)
        ensures
            c.wf(),
            c.rows@.len() == 0,
            c.counters@.len() == 0,
            c.engagements@.len() == 0,
            c.engagements_by_drone@.len() == 0,
            c.convoys@.len() == 0,
            c.drones@.len() == 0,
            c.waypoints@.len() == 0,
            c.telemetry@.len() == 0,
    {
        ColdStore {
            rows: Vec::new(),
            counters: Vec::new(),
            engagements: Vec::new(),
            engagements_by_drone: Vec::new(),
            convoys: Vec::new(),
            drones: Vec::new(),
            waypoints: Vec::new(),
            telemetry: Vec::new(),
        }
    }
}

} // verus!
