//! The accuracy engine over the two tiers: ranking reads, the engagement
//! mutation, counter increments, and cache rebuilds, each composing the hot
//! and cold tier under the configured read and write strategies.

use vstd::prelude::*;
use vstd::math::min;
use crate::accuracy::{AccuracyStats, accuracy_x100_of, spec_accuracy_x100_of};
use crate::domain::PlatformType;
use crate::errors::PersistenceError;
use crate::kv::{spec_lookup, spec_lookup2, find_key2, upsert2};
use crate::ranking::{EntryModel, LeaderboardEntry, build_page, spec_entry_from, spec_strip_rank};
use crate::strategy::{ReadStrategy, WriteStrategy};
use crate::tiers::{ColdStore, HotStore, entry_models, spec_wf_page};

verus! {

/// Both tiers as one unit: the hot cache and the cold source of truth.
pub struct PersistenceCore {
    pub hot: HotStore,
    pub cold: ColdStore,
}

impl PersistenceCore {
    pub open spec fn wf(self) -> bool {
        self.hot.wf() && self.cold.wf()
    }

    /// A fresh pair of empty tiers.
    pub fn new() -> (c: PersistenceCore)
        ensures
            c.wf(),
            c.hot.available,
            c.cold.rows@.len() == 0,
            c.cold.engagements@.len() == 0,
            c.hot.leaderboards@.len() == 0,
    {
        PersistenceCore { hot: HotStore::new(), cold: ColdStore::new() }
    }
}

// =============================================================================
// CONVOY ROW PROJECTION
// =============================================================================

/// The models of a convoy's leaderboard rows, in storage order.
pub open spec fn spec_convoy_rows(
    rows: Seq<((u128, u128), LeaderboardEntry)>,
    convoy_id: u128,
) -> Seq<EntryModel>
    decreases rows.len(),
{
    if rows.len() == 0 {
        Seq::empty()
    } else {
        let rest = spec_convoy_rows(rows.drop_last(), convoy_id);
        if rows.last().0.0 == convoy_id {
            rest.push(rows.last().1@)
        } else {
            rest
        }
    }
}

/// Every convoy-row model comes from a stored row of that convoy.
pub proof fn lemma_convoy_rows_member(
    rows: Seq<((u128, u128), LeaderboardEntry)>,
    convoy_id: u128,
    k: int,
)
    requires
        0 <= k < spec_convoy_rows(rows, convoy_id).len(),
    ensures
        exists|j: int|
            0 <= j < rows.len() && (#[trigger] rows[j]).0.0 == convoy_id && rows[j].1@
                == spec_convoy_rows(rows, convoy_id)[k],
    decreases rows.len(),
{
    let ms = spec_convoy_rows(rows, convoy_id);
    if rows.last().0.0 == convoy_id && k == ms.len() - 1 {
        assert(rows[rows.len() - 1].0.0 == convoy_id && rows[rows.len() - 1].1@ == ms[k]);
    } else {
        let msp = spec_convoy_rows(rows.drop_last(), convoy_id);
        lemma_convoy_rows_member(rows.drop_last(), convoy_id, k);
        let j = choose|j: int|
            0 <= j < rows.drop_last().len() && (#[trigger] rows.drop_last()[j]).0.0 == convoy_id
                && rows.drop_last()[j].1@ == msp[k];
        assert(rows[j] == rows.drop_last()[j]);
        assert(ms[k] == msp[k]);
    }
}

/// A model with the convoy's id appears among the convoy-row models exactly
/// when a row with that key is stored.
pub open spec fn spec_strip_model(m: EntryModel) -> EntryModel {
    EntryModel { rank: 0, ..m }
}

/// `e` is, rank aside, one of the given models.
pub open spec fn spec_entry_in_models(ms: Seq<EntryModel>, e: LeaderboardEntry) -> bool {
    exists|k: int| 0 <= k < ms.len() && spec_strip_model(#[trigger] ms[k]) == spec_strip_rank(e)
}

/// A page built from the cold tier for a convoy: capped at `limit`, well
/// formed (sorted, ranks 1 upward, entries internally consistent), each
/// entry one of the convoy's row models.
pub open spec fn spec_cold_page(
    rows: Seq<((u128, u128), LeaderboardEntry)>,
    convoy_id: u128,
    limit: int,
    page: Seq<LeaderboardEntry>,
) -> bool {
    &&& page.len() == min(limit, spec_convoy_rows(rows, convoy_id).len() as int)
    &&& spec_wf_page(page)
    &&& forall|i: int|
        0 <= i < page.len() ==> spec_entry_in_models(
            spec_convoy_rows(rows, convoy_id),
            #[trigger] page[i],
        )
}

/// Collect duplicates of a convoy's rows, in storage order.
fn collect_convoy_rows(rows: &Vec<((u128, u128), LeaderboardEntry)>, convoy_id: u128) -> (r: Vec<
    LeaderboardEntry,
>)
    ensures
        entry_models(r@) == spec_convoy_rows(rows@, convoy_id),
{
    let mut r: Vec<LeaderboardEntry> = Vec::new();
    let mut i: usize = 0;
    while i < rows.len()
        invariant
            i <= rows@.len(),
            entry_models(r@) == spec_convoy_rows(rows@.subrange(0, i as int), convoy_id),
        decreases rows@.len() - i,
    {
        let ghost pre = rows@.subrange(0, i as int);
        let ghost post = rows@.subrange(0, i + 1);
        proof {
            assert(post.drop_last() =~= pre);
            assert(post.last() == rows@[i as int]);
        }
        if rows[i].0.0 == convoy_id {
            let ghost r0 = r@;
            r.push(rows[i].1.duplicate());
            proof {
                assert(entry_models(r@) =~= entry_models(r0).push(rows@[i as int].1@));
            }
        }
        i += 1;
    }
    proof {
        assert(rows@.subrange(0, rows@.len() as int) =~= rows@);
    }
    r
}

/// Stripped-model equality carries internal consistency across.
proof fn lemma_strip_wf(m: EntryModel, e: LeaderboardEntry)
    requires
        spec_strip_model(m) == spec_strip_rank(e),
        m.stats.wf(),
        m.accuracy_x100 == m.stats.spec_accuracy_x100(),
    ensures
        e.wf(),
{
}

/// Build the ranked page for a convoy from the cold tier alone.
fn build_cold_page(cold: &ColdStore, convoy_id: u128, limit: usize) -> (r: Vec<LeaderboardEntry>)
    requires
        cold.wf(),
        limit <= u32::MAX,
    ensures
        spec_cold_page(cold.rows@, convoy_id, limit as int, r@),
{
    let tmp = collect_convoy_rows(&cold.rows, convoy_id);
    let ghost ms = spec_convoy_rows(cold.rows@, convoy_id);
    let ghost tmpseq = tmp@;
    let page = build_page(tmp, limit);
    proof {
        assert forall|i: int| 0 <= i < page@.len() implies spec_entry_in_models(
            ms,
            #[trigger] page@[i],
        ) by {
            assert(spec_entry_from(tmpseq, page@[i]));
            let w = choose|w: LeaderboardEntry|
                tmpseq.contains(w) && spec_strip_rank(w) == spec_strip_rank(page@[i]);
            let j = choose|j: int| 0 <= j < tmpseq.len() && tmpseq[j] == w;
            assert(entry_models(tmpseq)[j] == w@);
            assert(spec_strip_model(ms[j]) == spec_strip_rank(page@[i]));
        }
        assert forall|i: int| 0 <= i < page@.len() implies (#[trigger] page@[i]).wf() by {
            let k = choose|k: int|
                0 <= k < ms.len() && spec_strip_model(#[trigger] ms[k]) == spec_strip_rank(
                    page@[i],
                );
            lemma_convoy_rows_member(cold.rows@, convoy_id, k);
            let j = choose|j: int|
                0 <= j < cold.rows@.len() && (#[trigger] cold.rows@[j]).0.0 == convoy_id
                    && cold.rows@[j].1@ == ms[k];
            assert(cold.rows@[j].1.wf());
            lemma_strip_wf(ms[k], page@[i]);
        }
    }
    page
}

// =============================================================================
// LEADERBOARD REPOSITORY
// =============================================================================

/// Fresh stats for an asset without a stored row.
pub open spec fn spec_zero_stats() -> AccuracyStats {
    AccuracyStats { total_engagements: 0, successful_hits: 0, current_streak: 0, best_streak: 0 }
}

/// The stats an update starts from: the stored row's, or zero.
pub open spec fn spec_prev_stats(
    rows: Seq<((u128, u128), LeaderboardEntry)>,
    convoy_id: u128,
    drone_id: u128,
) -> AccuracyStats {
    match spec_lookup2(rows, (convoy_id, drone_id)) {
        Some(row) => row.stats,
        None => spec_zero_stats(),
    }
}

/// The model of the row an update stores and returns: the previous stats
/// with one engagement folded in, the derived accuracy, the stored callsign
/// and platform when a row existed (the caller's otherwise), rank 0, and
/// the update instant.
pub open spec fn spec_updated_model(
    rows: Seq<((u128, u128), LeaderboardEntry)>,
    convoy_id: u128,
    drone_id: u128,
    callsign: Seq<char>,
    platform: PlatformType,
    hit: bool,
    now_ms: u64,
) -> EntryModel {
    let st = spec_prev_stats(rows, convoy_id, drone_id).spec_record(hit);
    EntryModel {
        convoy_id: convoy_id,
        drone_id: drone_id,
        callsign: match spec_lookup2(rows, (convoy_id, drone_id)) {
            Some(row) => row@.callsign,
            None => callsign,
        },
        platform_type: match spec_lookup2(rows, (convoy_id, drone_id)) {
            Some(row) => row.platform_type,
            None => platform,
        },
        stats: st,
        accuracy_x100: spec_accuracy_x100_of(
            st.total_engagements as nat,
            st.successful_hits as nat,
        ) as u64,
        rank: 0,
        updated_at_ms: now_ms,
    }
}

/// The accuracy-engine repository: ranking reads and the one mutation that
/// writes the cold row and touches the hot tier, under the configured
/// strategies.
pub struct LeaderboardRepository {
    pub read_strategy: ReadStrategy,
    pub write_strategy: WriteStrategy,
}

impl LeaderboardRepository {
    /// A repository with the default strategies: cache-first reads,
    /// write-through writes.
    pub fn new() -> (r: LeaderboardRepository)
        ensures
            r.read_strategy is CacheFirst,
            r.write_strategy is WriteThrough,
    {
        LeaderboardRepository {
            read_strategy: ReadStrategy::CacheFirst,
            write_strategy: WriteStrategy::WriteThrough,
        }
    }

    /// A repository with the given strategies.
    pub fn with_strategies(read_strategy: ReadStrategy, write_strategy: WriteStrategy) -> (r:
        LeaderboardRepository)
        ensures
            r.read_strategy == read_strategy,
            r.write_strategy == write_strategy,
    {
        LeaderboardRepository { read_strategy, write_strategy }
    }

    pub fn set_read_strategy(&mut self, strategy: ReadStrategy)
        ensures
            final(self).read_strategy == strategy,
            final(self).write_strategy == old(self).write_strategy,
    {
        self.read_strategy = strategy;
    }

    pub fn set_write_strategy(&mut self, strategy: WriteStrategy)
        ensures
            final(self).write_strategy == strategy,
            final(self).read_strategy == old(self).read_strategy,
    {
        self.write_strategy = strategy;
    }

    /// The ranking page for a convoy, capped at `limit`.
    ///
    /// Under `CacheFirst`, a cached page is returned as is; on a miss or a
    /// hot-tier outage the page is built from the cold rows and, when the
    /// tier is up, cached. `DbOnly` always builds from cold and leaves the
    /// hot tier untouched; `ReadThrough` builds from cold and caches.
    /// `CacheOnly` returns the cached page or fails with `CacheMiss`; while
    /// the hot tier is down it fails with the transport error. Every page
    /// returned is sorted in ranking order with ranks 1 upward.
    pub fn get_leaderboard(&self, store: &mut PersistenceCore, convoy_id: u128, limit: usize) -> (r:
        Result<Vec<LeaderboardEntry>, PersistenceError>)
        requires
            old(store).wf(),
            limit <= u32::MAX,
        ensures
            final(store).wf(),
            final(store).cold == old(store).cold,
            final(store).hot.available == old(store).hot.available,
            (r matches Ok(page) ==> spec_wf_page(page@)),
            (self.read_strategy is CacheFirst ==> (match spec_lookup(
                old(store).hot.leaderboards@,
                convoy_id,
            ) {
                Some(q) => old(store).hot.available ==> (r matches Ok(page) && entry_models(page@)
                    == entry_models(q@) && *final(store) == *old(store)),
                None => true,
            })),
            (self.read_strategy is CacheFirst && (!old(store).hot.available || spec_lookup(
                old(store).hot.leaderboards@,
                convoy_id,
            ) is None) ==> (r matches Ok(page) && spec_cold_page(
                old(store).cold.rows@,
                convoy_id,
                limit as int,
                page@,
            ))),
            (self.read_strategy is DbOnly ==> (r matches Ok(page) && spec_cold_page(
                old(store).cold.rows@,
                convoy_id,
                limit as int,
                page@,
            ) && final(store).hot == old(store).hot)),
            (self.read_strategy is ReadThrough ==> (r matches Ok(page) && spec_cold_page(
                old(store).cold.rows@,
                convoy_id,
                limit as int,
                page@,
            ))),
            ((self.read_strategy is CacheFirst || self.read_strategy is ReadThrough)
                && old(store).hot.available && (self.read_strategy is ReadThrough || spec_lookup(
                old(store).hot.leaderboards@,
                convoy_id,
            ) is None) ==> (match spec_lookup(final(store).hot.leaderboards@, convoy_id) {
                Some(q2) => r matches Ok(page) && entry_models(q2@) == entry_models(page@),
                None => false,
            })),
            (self.read_strategy is CacheOnly ==> {
                &&& !old(store).hot.available ==> (r matches Err(e) && e is HotStore
                    && *final(store) == *old(store))
                &&& old(store).hot.available ==> (match spec_lookup(
                    old(store).hot.leaderboards@,
                    convoy_id,
                ) {
                    Some(q) => r matches Ok(page) && entry_models(page@) == entry_models(q@),
                    None => r matches Err(e) && e is CacheMiss,
                }) && *final(store) == *old(store)
            }),
    {
        match self.read_strategy {
            ReadStrategy::CacheFirst => {
                match store.hot.get_leaderboard(convoy_id) {
                    Ok(Some(page)) => {
                        return Ok(page);
                    },
                    _ => {},
                }
                let page = build_cold_page(&store.cold, convoy_id, limit);
                match store.hot.set_leaderboard(convoy_id, &page) {
                    _ => {},
                }
                Ok(page)
            },
            ReadStrategy::DbOnly => {
                let page = build_cold_page(&store.cold, convoy_id, limit);
                Ok(page)
            },
            ReadStrategy::ReadThrough => {
                let page = build_cold_page(&store.cold, convoy_id, limit);
                match store.hot.set_leaderboard(convoy_id, &page) {
                    _ => {},
                }
                Ok(page)
            },
            ReadStrategy::CacheOnly => {
                match store.hot.get_leaderboard(convoy_id) {
                    Ok(Some(page)) => Ok(page),
                    Ok(None) => Err(
                        PersistenceError::CacheMiss(
                            String::from_str("convoy ranking page not cached"),
                        ),
                    ),
                    Err(e) => Err(e),
                }
            },
        }
    }

    /// Fold one engagement outcome into an asset's leaderboard row.
    ///
    /// The stored row (or a fresh one) has the engagement recorded into its
    /// stats, its accuracy rederived, and the update instant set; the new
    /// row replaces the old one in the cold tier and is returned with rank
    /// 0. Unless the write strategy is `DbOnly`, the convoy's cached
    /// ranking page is invalidated, best effort. The call fails only when
    /// the stored engagement total is at the integer limit, and then
    /// changes nothing.
    pub fn update_entry(
        &self,
        store: &mut PersistenceCore,
        convoy_id: u128,
        drone_id: u128,
        callsign: &str,
        platform: PlatformType,
        hit: bool,
        now_ms: u64,
    ) -> (r: Result<LeaderboardEntry, PersistenceError>)
        requires
            old(store).wf(),
        ensures
            final(store).wf(),
            (spec_prev_stats(old(store).cold.rows@, convoy_id, drone_id).total_engagements
                == u64::MAX ==> (r is Err && *final(store) == *old(store))),
            (spec_prev_stats(old(store).cold.rows@, convoy_id, drone_id).total_engagements
                < u64::MAX ==> (r matches Ok(e) && ({
                &&& e@ == spec_updated_model(
                    old(store).cold.rows@,
                    convoy_id,
                    drone_id,
                    callsign@,
                    platform,
                    hit,
                    now_ms,
                )
                &&& (spec_lookup2(final(store).cold.rows@, (convoy_id, drone_id)) matches Some(s)
                    && s@ == e@)
                &&& forall|k2: (u128, u128)|
                    k2 != (convoy_id, drone_id) ==> spec_lookup2(final(store).cold.rows@, k2)
                        == spec_lookup2(old(store).cold.rows@, k2)
                &&& final(store).cold.counters == old(store).cold.counters
                &&& final(store).cold.engagements == old(store).cold.engagements
                &&& final(store).cold.engagements_by_drone == old(store).cold.engagements_by_drone
                &&& final(store).cold.convoys == old(store).cold.convoys
                && final(store).cold.drones == old(store).cold.drones
                &&& final(store).cold.waypoints == old(store).cold.waypoints
                &&& final(store).cold.telemetry == old(store).cold.telemetry
                &&& final(store).hot.available == old(store).hot.available
                &&& (self.write_strategy is DbOnly ==> final(store).hot == old(store).hot)
                &&& (!old(store).hot.available ==> final(store).hot == old(store).hot)
                &&& (!(self.write_strategy is DbOnly) && old(store).hot.available ==> ({
                    &&& spec_lookup(final(store).hot.leaderboards@, convoy_id) is None
                    &&& forall|c2: u128|
                        c2 != convoy_id ==> spec_lookup(final(store).hot.leaderboards@, c2)
                            == spec_lookup(old(store).hot.leaderboards@, c2)
                    &&& final(store).hot.counters == old(store).hot.counters
                    &&& final(store).hot.latest_telemetry == old(store).hot.latest_telemetry
                    &&& final(store).hot.rosters == old(store).hot.rosters
                }))
            }))),
    {
        let idx = find_key2(&store.cold.rows, convoy_id, drone_id);
        let (prev_stats, cs, pt): (AccuracyStats, String, PlatformType) = match idx {
            Some(i) => {
                let row = &store.cold.rows[i].1;
                (row.stats, row.callsign.clone(), row.platform_type)
            },
            None => (AccuracyStats::new(), String::from_str(callsign), platform),
        };
        if prev_stats.total_engagements == u64::MAX {
            return Err(
                PersistenceError::WriteConflict(String::from_str("engagement total at limit")),
            );
        }
        proof {
            if idx is Some {
                let i = idx->Some_0 as int;
                assert(store.cold.rows@[i].1.wf());
            }
        }
        let st = prev_stats.record(hit);
        let acc = accuracy_x100_of(st.total_engagements, st.successful_hits);
        let e = LeaderboardEntry {
            convoy_id,
            drone_id,
            callsign: cs,
            platform_type: pt,
            stats: st,
            accuracy_x100: acc,
            rank: 0,
            updated_at_ms: now_ms,
        };
        let ghost rows0 = store.cold.rows@;
        upsert2(&mut store.cold.rows, convoy_id, drone_id, e.duplicate());
        proof {
            assert forall|i: int| 0 <= i < store.cold.rows@.len() implies {
                &&& (#[trigger] store.cold.rows@[i]).1.wf()
                &&& store.cold.rows@[i].1.convoy_id == store.cold.rows@[i].0.0
                &&& store.cold.rows@[i].1.drone_id == store.cold.rows@[i].0.1
            } by {
                let k = store.cold.rows@[i].0;
                crate::kv::lemma_lookup2_unique(store.cold.rows@, k, i);
                if k != (convoy_id, drone_id) {
                    crate::kv::lemma_lookup2_index(rows0, k, store.cold.rows@[i].1);
                }
            }
        }
        match self.write_strategy {
            WriteStrategy::DbOnly => {},
            _ => {
                match store.hot.invalidate_leaderboard(convoy_id) {
                    _ => {},
                }
            },
        }
        Ok(e)
    }

    /// Bump the authoritative cold-tier counters for an asset: the total by
    /// one, the hit count by one exactly on a hit; the new pair is
    /// returned. Commutative: two increments land the same counters in
    /// either order. Fails only at the integer limit, changing nothing.
    pub fn increment_counters(
        &self,
        store: &mut PersistenceCore,
        convoy_id: u128,
        drone_id: u128,
        hit: bool,
    ) -> (r: Result<(u64, u64), PersistenceError>)
        requires
            old(store).wf(),
        ensures
            final(store).wf(),
            final(store).hot == old(store).hot,
            ({
                let prev = match spec_lookup2(old(store).cold.counters@, (convoy_id, drone_id)) {
                    Some(p) => p,
                    None => (0u64, 0u64),
                };
                &&& (prev.0 < u64::MAX ==> (r matches Ok(p) && ({
                    &&& p == ((prev.0 + 1) as u64, if hit {
                        (prev.1 + 1) as u64
                    } else {
                        prev.1
                    })
                    &&& (spec_lookup2(final(store).cold.counters@, (convoy_id, drone_id))
                        matches Some(q) && q == p)
                    &&& forall|k2: (u128, u128)|
                        k2 != (convoy_id, drone_id) ==> spec_lookup2(
                            final(store).cold.counters@,
                            k2,
                        ) == spec_lookup2(old(store).cold.counters@, k2)
                    &&& final(store).cold.rows == old(store).cold.rows
                    &&& final(store).cold.engagements == old(store).cold.engagements
                    &&& final(store).cold.engagements_by_drone
                        == old(store).cold.engagements_by_drone
                    &&& final(store).cold.convoys == old(store).cold.convoys
                && final(store).cold.drones == old(store).cold.drones
                    &&& final(store).cold.waypoints == old(store).cold.waypoints
                    &&& final(store).cold.telemetry == old(store).cold.telemetry
                })))
                &&& (prev.0 == u64::MAX ==> (r is Err && *final(store) == *old(store)))
            }),
    {
        let prev: (u64, u64) = match find_key2(&store.cold.counters, convoy_id, drone_id) {
            Some(i) => store.cold.counters[i].1,
            None => (0, 0),
        };
        if prev.0 == u64::MAX {
            return Err(
                PersistenceError::WriteConflict(String::from_str("accuracy counter at limit")),
            );
        }
        let next = (prev.0 + 1, if hit {
            prev.1 + 1
        } else {
            prev.1
        });
        let ghost ct0 = store.cold.counters@;
        upsert2(&mut store.cold.counters, convoy_id, drone_id, next);
        proof {
            assert forall|i: int| 0 <= i < store.cold.counters@.len() implies (
            #[trigger] store.cold.counters@[i]).1.1 <= store.cold.counters@[i].1.0 by {
                let k = store.cold.counters@[i].0;
                crate::kv::lemma_lookup2_unique(store.cold.counters@, k, i);
                if k != (convoy_id, drone_id) {
                    crate::kv::lemma_lookup2_index(ct0, k, store.cold.counters@[i].1);
                }
            }
        }
        Ok(next)
    }

    /// Rebuild the convoy's hot-tier projection from the cold rows: the
    /// per-convoy hot keys are dropped, the top page (at most 100 entries)
    /// is rebuilt from cold and, while the hot tier is up, cached. Returns
    /// the number of entries processed.
    pub fn rebuild(&self, store: &mut PersistenceCore, convoy_id: u128) -> (r: Result<
        usize,
        PersistenceError,
    >)
        requires
            old(store).wf(),
        ensures
            final(store).wf(),
            final(store).cold == old(store).cold,
            (r matches Ok(n) && n == min(
                100,
                spec_convoy_rows(old(store).cold.rows@, convoy_id).len() as int,
            )),
            (old(store).hot.available ==> (match spec_lookup(
                final(store).hot.leaderboards@,
                convoy_id,
            ) {
                Some(q) => spec_cold_page(old(store).cold.rows@, convoy_id, 100, q@),
                None => false,
            })),
            (!old(store).hot.available ==> final(store).hot == old(store).hot),
    {
        match store.hot.invalidate_convoy(convoy_id) {
            _ => {},
        }
        let page = build_cold_page(&store.cold, convoy_id, 100);
        let n = page.len();
        match store.hot.set_leaderboard(convoy_id, &page) {
            _ => {},
        }
        proof {
            if old(store).hot.available {
                let ms = spec_convoy_rows(old(store).cold.rows@, convoy_id);
                let lb = store.hot.leaderboards@;
                let q = spec_lookup(lb, convoy_id)->Some_0;
                crate::kv::lemma_lookup_index(lb, convoy_id, q);
                let idx = choose|i: int| 0 <= i < lb.len() && #[trigger] lb[i] == (convoy_id, q);
                assert(spec_wf_page(q@));
                assert(entry_models(q@).len() == entry_models(page@).len());
                assert forall|i: int| 0 <= i < q@.len() implies spec_entry_in_models(
                    ms,
                    #[trigger] q@[i],
                ) by {
                    assert(q@[i]@ == entry_models(q@)[i]);
                    assert(page@[i]@ == entry_models(page@)[i]);
                    assert(q@[i]@ == page@[i]@);
                    assert(spec_entry_in_models(ms, page@[i]));
                    let k = choose|k: int|
                        0 <= k < ms.len() && spec_strip_model(#[trigger] ms[k]) == spec_strip_rank(
                            page@[i],
                        );
                    assert(spec_strip_rank(q@[i]) == spec_strip_rank(page@[i]));
                    assert(spec_strip_model(ms[k]) == spec_strip_rank(q@[i]));
                }
                assert(spec_cold_page(old(store).cold.rows@, convoy_id, 100, q@));
            }
        }
        Ok(n)
    }
}

/// What one engagement does to an authoritative counter pair.
pub open spec fn spec_apply_counter(p: (u64, u64), hit: bool) -> (u64, u64) {
    (vstd::math::add(p.0 as int, 1) as u64, if hit {
        vstd::math::add(p.1 as int, 1) as u64
    } else {
        p.1
    })
}

/// Counter increments commute: folding two engagement outcomes into a
/// counter pair lands the same counters in either order, which is why two
/// concurrent recorders lose no hits in the authoritative columns.
pub proof fn lemma_counter_increments_commute(p: (u64, u64), first: bool, second: bool)
    requires
        p.0 + 2 <= u64::MAX,
        p.1 + 2 <= u64::MAX,
    ensures
        spec_apply_counter(spec_apply_counter(p, first), second) == spec_apply_counter(
            spec_apply_counter(p, second),
            first,
        ),
{
}

// =============================================================================
// RANK LOOKUP
// =============================================================================

/// Strict ranking precedence on models.
pub open spec fn spec_model_outranks(a: EntryModel, b: EntryModel) -> bool {
    ||| a.accuracy_x100 > b.accuracy_x100
    ||| (a.accuracy_x100 == b.accuracy_x100 && a.stats.total_engagements
        > b.stats.total_engagements)
    ||| (a.accuracy_x100 == b.accuracy_x100 && a.stats.total_engagements
        == b.stats.total_engagements && a.drone_id < b.drone_id)
}

/// How many of the given models strictly outrank `m`.
pub open spec fn spec_count_outrankers(ms: Seq<EntryModel>, m: EntryModel) -> nat
    decreases ms.len(),
{
    if ms.len() == 0 {
        0
    } else {
        spec_count_outrankers(ms.drop_last(), m) + (if spec_model_outranks(ms.last(), m) {
            1nat
        } else {
            0nat
        })
    }
}

/// The 1-indexed rank an asset's row holds among a convoy's rows: one more
/// than the number of rows that strictly outrank it.
pub open spec fn spec_cold_rank(
    rows: Seq<((u128, u128), LeaderboardEntry)>,
    convoy_id: u128,
    drone_id: u128,
) -> Option<int> {
    match spec_lookup2(rows, (convoy_id, drone_id)) {
        Some(row) => Some(
            1 + spec_count_outrankers(spec_convoy_rows(rows, convoy_id), row@) as int,
        ),
        None => None,
    }
}

impl LeaderboardRepository {
    /// The asset's 1-indexed position in its convoy ranking.
    ///
    /// A cached page is consulted first while the hot tier is up: if the
    /// asset appears there, its position in the page is returned. Otherwise
    /// the rank is computed against the cold rows as one more than the
    /// number of rows that strictly outrank the asset's row, scanning the
    /// top 100: `None` when the asset has no row or stands beyond 100.
    pub fn get_rank(&self, store: &PersistenceCore, convoy_id: u128, drone_id: u128) -> (r: Option<
        u32,
    >)
        requires
            store.wf(),
        ensures
            ({
                let cached = spec_lookup(store.hot.leaderboards@, convoy_id);
                let hot_hit = store.hot.available && (match cached {
                    Some(q) => exists|i: int|
                        0 <= i < q@.len() && (#[trigger] q@[i]).drone_id == drone_id,
                    None => false,
                });
                &&& (hot_hit ==> (match cached {
                    Some(q) => r matches Some(k) && 1 <= k <= q@.len() && q@[k - 1].drone_id
                        == drone_id && (forall|i: int|
                        0 <= i < k - 1 ==> (#[trigger] q@[i]).drone_id != drone_id),
                    None => false,
                }))
                &&& (!hot_hit ==> r == (match spec_cold_rank(
                    store.cold.rows@,
                    convoy_id,
                    drone_id,
                ) {
                    Some(k) => if k <= 100 {
                        Some(k as u32)
                    } else {
                        None
                    },
                    None => None,
                }))
            }),
    {
        if store.hot.available {
            match crate::kv::find_key(&store.hot.leaderboards, convoy_id) {
                Some(pi) => {
                    let page = &store.hot.leaderboards[pi].1;
                    proof {
                        crate::kv::lemma_lookup_unique(store.hot.leaderboards@, convoy_id, pi as int);
                        assert(spec_wf_page(page@));
                        if page@.len() > u32::MAX {
                            assert(page@[u32::MAX as int].rank == u32::MAX + 1);
                            assert(false);
                        }
                    }
                    let mut i: usize = 0;
                    while i < page.len()
                        invariant
                            i <= page@.len(),
                            page@.len() <= u32::MAX,
                            store.hot.available,
                            spec_lookup(store.hot.leaderboards@, convoy_id) matches Some(q) && q@
                                == page@,
                            forall|j: int| 0 <= j < i ==> (#[trigger] page@[j]).drone_id != drone_id,
                        decreases page@.len() - i,
                    {
                        if page[i].drone_id == drone_id {
                            return Some((i + 1) as u32);
                        }
                        i += 1;
                    }
                },
                None => {},
            }
        }
        // Cold scan: count the rows of the convoy that outrank this asset's
        // row.
        let idx = find_key2(&store.cold.rows, convoy_id, drone_id);
        match idx {
            None => None,
            Some(ri) => {
                let target = store.cold.rows[ri].1.duplicate();
                let ghost ms = spec_convoy_rows(store.cold.rows@, convoy_id);
                let tmp = collect_convoy_rows(&store.cold.rows, convoy_id);
                let mut count: usize = 0;
                let mut i: usize = 0;
                while i < tmp.len()
                    invariant
                        i <= tmp@.len(),
                        entry_models(tmp@) == ms,
                        count == spec_count_outrankers(ms.take(i as int), target@),
                        count <= i,
                        target@ == store.cold.rows@[ri as int].1@,
                    decreases tmp@.len() - i,
                {
                    let ghost pre = ms.take(i as int);
                    let ghost post = ms.take(i + 1);
                    proof {
                        assert(post.drop_last() =~= pre);
                        assert(post.last() == ms[i as int]);
                        assert(tmp@[i as int]@ == entry_models(tmp@)[i as int]);
                    }
                    if crate::ranking::outranks(&tmp[i], &target) {
                        proof {
                            assert(spec_model_outranks(ms[i as int], target@));
                        }
                        count += 1;
                    } else {
                        proof {
                            assert(!spec_model_outranks(ms[i as int], target@));
                        }
                    }
                    i += 1;
                }
                proof {
                    assert(ms.take(ms.len() as int) =~= ms);
                }
                if count < 100 {
                    Some((count + 1) as u32)
                } else {
                    None
                }
            },
        }
    }
}

// =============================================================================
// LAWS
// =============================================================================

/// Hot/cold invariant under write-through: after a successful
/// `update_entry`, wherever the asset appears in a page later built from
/// the cold rows alone (a `DbOnly` read), its accuracy and stats are
/// exactly those the mutation returned.
pub proof fn lemma_write_through_read_back(
    rows: Seq<((u128, u128), LeaderboardEntry)>,
    convoy_id: u128,
    drone_id: u128,
    e: EntryModel,
    limit: int,
    page: Seq<LeaderboardEntry>,
)
    requires
        crate::kv::keys_unique2(rows),
        forall|i: int|
            0 <= i < rows.len() ==> (#[trigger] rows[i]).1.convoy_id == rows[i].0.0
                && rows[i].1.drone_id == rows[i].0.1,
        spec_lookup2(rows, (convoy_id, drone_id)) matches Some(s) && s@ == e,
        spec_cold_page(rows, convoy_id, limit, page),
    ensures
        forall|i: int|
            0 <= i < page.len() && (#[trigger] page[i]).drone_id == drone_id ==> page[i].accuracy_x100
                == e.accuracy_x100 && page[i].stats == e.stats,
{
    let ms = spec_convoy_rows(rows, convoy_id);
    assert forall|i: int| 0 <= i < page.len() && (#[trigger] page[i]).drone_id == drone_id implies
        page[i].accuracy_x100 == e.accuracy_x100 && page[i].stats == e.stats by {
        let k = choose|k: int|
            0 <= k < ms.len() && spec_strip_model(#[trigger] ms[k]) == spec_strip_rank(page[i]);
        lemma_convoy_rows_member(rows, convoy_id, k);
        let j = choose|j: int|
            0 <= j < rows.len() && (#[trigger] rows[j]).0.0 == convoy_id && rows[j].1@ == ms[k];
        assert(ms[k].drone_id == page[i].drone_id);
        assert(rows[j].1.drone_id == drone_id);
        assert(rows[j].0 == (convoy_id, drone_id));
        crate::kv::lemma_lookup2_unique(rows, (convoy_id, drone_id), j);
        assert(rows[j].1@ == e);
    }
}

} // verus!
