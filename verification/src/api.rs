//! The API facade: query, mutation, and subscription roots over the
//! repositories, the two tiers, and the event broker.
//!
//! Identifier inputs arrive in textual form and are parsed; a malformed id
//! surfaces `InvalidUuid` and changes nothing. Each mutation's contract
//! states what it stores and which events it fans out.

use vstd::prelude::*;
use vstd::math::min;
use crate::broker::{
    AlertEvent, DroneStatusEvent, EngagementEvent, EngagementEventModel, HeartbeatPacer,
    LeaderboardUpdateEvent, LeaderboardUpdateEventModel, Topic, spec_delivered,
    filter_engagement_events, filter_alert_events, filter_leaderboard_updates, event_views,
};
use crate::domain::{
    AlertSeverity, DamageAssessment, DroneStatus, PlatformType, RankChangeType, TargetType,
    WeaponType,
};
use crate::entities::{Convoy, Drone, Engagement, Telemetry, Waypoint};
use crate::errors::{ApiError, PersistenceError};
use crate::ids::{parse_uuid, spec_uuid_valid, spec_uuid_value};
use crate::kv::{spec_lookup, spec_lookup2};
use crate::ranking::LeaderboardEntry;
use crate::repos::{
    ConvoyRepository, DroneRepository, EngagementRepository, TelemetryRepository,
    WaypointRepository,
};
use crate::repository::{
    LeaderboardRepository, PersistenceCore, spec_cold_rank, spec_prev_stats, spec_updated_model,
};

verus! {

// =============================================================================
// INPUTS AND FILTERS
// =============================================================================

/// Input for recording a hit or miss.
#[derive(Debug)]
pub struct RecordEngagementInput {
    pub convoy_id: String,
    pub drone_id: String,
    pub hit: bool,
    pub weapon_type: Option<WeaponType>,
    pub target_type: Option<TargetType>,
    pub range_m: Option<u64>,
}

/// Input for updating a battle damage assessment.
#[derive(Debug)]
pub struct UpdateBdaInput {
    pub convoy_id: String,
    pub engagement_id: String,
    pub damage_assessment: DamageAssessment,
    pub notes: Option<String>,
}

/// Input for updating a convoy's status.
#[derive(Debug)]
pub struct UpdateConvoyStatusInput {
    pub convoy_id: String,
    pub status: crate::domain::ConvoyStatus,
}

/// Pagination input with the protocol defaults.
#[derive(Clone, Copy, PartialEq, Eq, Structural, Debug)]
pub struct PaginationInput {
    pub limit: u32,
    pub offset: u32,
}

impl Default for PaginationInput {
    fn default() -> (p: PaginationInput)
        ensures
            p.limit == 20,
            p.offset == 0,
    {
        PaginationInput { limit: 20, offset: 0 }
    }
}

/// Ranking page filter.
#[derive(Clone, Copy, PartialEq, Eq, Structural, Debug)]
pub struct LeaderboardFilter {
    pub min_accuracy_x100: Option<u64>,
    pub min_engagements: Option<u64>,
    pub platform_type: Option<PlatformType>,
}

/// Whether an entry passes a ranking filter.
pub open spec fn spec_entry_passes(f: LeaderboardFilter, e: LeaderboardEntry) -> bool {
    &&& (match f.min_accuracy_x100 {
        Some(m) => e.accuracy_x100 >= m,
        None => true,
    })
    &&& (match f.min_engagements {
        Some(m) => e.stats.total_engagements >= m,
        None => true,
    })
    &&& (match f.platform_type {
        Some(p) => e.platform_type == p,
        None => true,
    })
}

/// The entries passing a ranking filter, in order.
pub open spec fn spec_filter_entries(
    s: Seq<LeaderboardEntry>,
    f: LeaderboardFilter,
) -> Seq<LeaderboardEntry>
    decreases s.len(),
{
    if s.len() == 0 {
        Seq::empty()
    } else {
        let rest = spec_filter_entries(s.drop_last(), f);
        if spec_entry_passes(f, s.last()) {
            rest.push(s.last())
        } else {
            rest
        }
    }
}

/// Keep the entries passing a ranking filter, in order, model for model.
fn filter_entries(v: &Vec<LeaderboardEntry>, f: &LeaderboardFilter) -> (r: Vec<LeaderboardEntry>)
    ensures
        crate::tiers::entry_models(r@) == crate::tiers::entry_models(spec_filter_entries(v@, *f)),
{
    let mut r: Vec<LeaderboardEntry> = Vec::new();
    let mut i: usize = 0;
    while i < v.len()
        invariant
            i <= v@.len(),
            crate::tiers::entry_models(r@) == crate::tiers::entry_models(
                spec_filter_entries(v@.subrange(0, i as int), *f),
            ),
        decreases v@.len() - i,
    {
        let ghost pre = v@.subrange(0, i as int);
        let ghost post = v@.subrange(0, i + 1);
        proof {
            assert(post.drop_last() =~= pre);
            assert(post.last() == v@[i as int]);
        }
        let e = &v[i];
        let pass_acc = match f.min_accuracy_x100 {
            Some(m) => e.accuracy_x100 >= m,
            None => true,
        };
        let pass_eng = match f.min_engagements {
            Some(m) => e.stats.total_engagements >= m,
            None => true,
        };
        let pass_pt = match f.platform_type {
            Some(p) => e.platform_type == p,
            None => true,
        };
        if pass_acc && pass_eng && pass_pt {
            let ghost r0 = r@;
            r.push(e.duplicate());
            proof {
                assert(crate::tiers::entry_models(r@) =~= crate::tiers::entry_models(r0).push(
                    v@[i as int]@,
                ));
                assert(crate::tiers::entry_models(spec_filter_entries(post, *f))
                    =~= crate::tiers::entry_models(spec_filter_entries(pre, *f)).push(
                    v@[i as int]@,
                ));
            }
        } else {
            proof {
                assert(spec_filter_entries(post, *f) == spec_filter_entries(pre, *f));
            }
        }
        i += 1;
    }
    proof {
        assert(v@.subrange(0, v@.len() as int) =~= v@);
    }
    r
}

// =============================================================================
// OUTPUTS
// =============================================================================

/// Sum of engagement totals over a page.
pub open spec fn spec_sum_total(s: Seq<LeaderboardEntry>) -> int
    decreases s.len(),
{
    if s.len() == 0 {
        0
    } else {
        spec_sum_total(s.drop_last()) + s.last().stats.total_engagements
    }
}

/// Sum of hit counts over a page.
pub open spec fn spec_sum_hits(s: Seq<LeaderboardEntry>) -> int
    decreases s.len(),
{
    if s.len() == 0 {
        0
    } else {
        spec_sum_hits(s.drop_last()) + s.last().stats.successful_hits
    }
}

/// Sum of accuracies over a page.
pub open spec fn spec_sum_acc(s: Seq<LeaderboardEntry>) -> int
    decreases s.len(),
{
    if s.len() == 0 {
        0
    } else {
        spec_sum_acc(s.drop_last()) + s.last().accuracy_x100
    }
}

/// The mean accuracy of a page, rounded half up; zero for an empty page.
pub open spec fn spec_average_acc(s: Seq<LeaderboardEntry>) -> int {
    if s.len() == 0 {
        0
    } else {
        (2 * spec_sum_acc(s) + s.len()) / (2 * s.len() as int)
    }
}

/// The page a ranking read draws, before any filter, capped at `limit`:
/// under a cold-path strategy (`DbOnly`, `ReadThrough`, or `CacheFirst`
/// with the hot tier down or nothing cached) it is the convoy's cold page;
/// under a hot hit (`CacheFirst` or `CacheOnly` with the tier up and a
/// cached page) it is the cached page, capped.
pub open spec fn spec_page_source(
    store: PersistenceCore,
    rs: crate::strategy::ReadStrategy,
    cid: u128,
    limit: int,
    page: Seq<LeaderboardEntry>,
) -> bool {
    let cached = spec_lookup(store.hot.leaderboards@, cid);
    let hot_hit = store.hot.available && cached is Some && (rs is CacheFirst || rs is CacheOnly);
    let cold_path = rs is DbOnly || rs is ReadThrough || (rs is CacheFirst && !(
    store.hot.available && cached is Some));
    &&& (cold_path ==> crate::repository::spec_cold_page(store.cold.rows@, cid, limit, page))
    &&& (hot_hit ==> (match cached {
        Some(q) => crate::tiers::entry_models(page) == crate::tiers::entry_models(q@).take(
            min(limit, q@.len() as int),
        ),
        None => false,
    }))
}

/// `entries` is the filter's selection from some page the read could draw.
pub open spec fn spec_filtered_from(
    store: PersistenceCore,
    rs: crate::strategy::ReadStrategy,
    cid: u128,
    limit: int,
    f: LeaderboardFilter,
    entries: Seq<LeaderboardEntry>,
) -> bool {
    exists|page: Seq<LeaderboardEntry>|
        #[trigger] spec_page_source(store, rs, cid, limit, page) && crate::tiers::entry_models(
            entries,
        ) == crate::tiers::entry_models(spec_filter_entries(page, f))
}

/// `st` aggregates some page the read could draw.
pub open spec fn spec_stats_from(
    store: PersistenceCore,
    rs: crate::strategy::ReadStrategy,
    cid: u128,
    st: ConvoyStats,
) -> bool {
    exists|page: Seq<LeaderboardEntry>|
        #[trigger] spec_page_source(store, rs, cid, 100, page) && st.drone_count == page.len()
            && st.total_engagements == spec_sum_total(page) && st.total_hits == spec_sum_hits(page)
            && st.average_accuracy_x100 == spec_average_acc(page)
}

/// The first position of an asset in a page, scanning from the top.
pub open spec fn spec_first_match(page: Seq<LeaderboardEntry>, did: u128) -> Option<int>
    decreases page.len(),
{
    if page.len() == 0 {
        None
    } else if page.first().drone_id == did {
        Some(0)
    } else {
        match spec_first_match(page.drop_first(), did) {
            Some(i) => Some(i + 1),
            None => None,
        }
    }
}

/// The asset's entry at its first position in some page the read could
/// draw, or nothing when no page entry carries the asset.
pub open spec fn spec_rank_result(
    store: PersistenceCore,
    rs: crate::strategy::ReadStrategy,
    cid: u128,
    did: u128,
    o: Option<LeaderboardEntry>,
) -> bool {
    exists|page: Seq<LeaderboardEntry>|
        #[trigger] spec_page_source(store, rs, cid, 100, page) && (match spec_first_match(
            page,
            did,
        ) {
            Some(i) => o matches Some(e) && e@ == page[i]@,
            None => o is None,
        })
}

/// A ranking page with its aggregates.
#[derive(Debug)]
pub struct Leaderboard {
    pub convoy_id: u128,
    pub entries: Vec<LeaderboardEntry>,
    pub total_drones: u64,
    pub average_accuracy_x100: u64,
    pub leader: Option<LeaderboardEntry>,
    pub total_engagements: u128,
    pub total_hits: u128,
    pub generated_at_ms: u64,
}

/// Convoy statistics derived from its ranking page.
#[derive(Debug)]
pub struct ConvoyStats {
    pub convoy_id: u128,
    pub drone_count: u64,
    pub total_engagements: u128,
    pub total_hits: u128,
    pub average_accuracy_x100: u64,
    pub timestamp_ms: u64,
}

/// Result of recording an engagement.
#[derive(Debug)]
pub struct RecordEngagementResult {
    pub success: bool,
    pub entry: LeaderboardEntry,
    pub new_rank: u32,
    pub rank_change: i32,
    pub new_accuracy_x100: u64,
}

/// Result of rebuilding a convoy's ranking projection.
#[derive(Clone, Copy, PartialEq, Eq, Structural, Debug)]
pub struct RebuildLeaderboardResult {
    pub success: bool,
    pub entries_processed: u64,
    pub duration_ms: u64,
}

/// Exactly one ranking-update event for the asset was fanned out, with
/// the given identity, accuracy, and instant; the rank it carries is the
/// one computed at publish time.
pub open spec fn spec_ranking_update_delivered(
    before: Topic<LeaderboardUpdateEvent>,
    after: Topic<LeaderboardUpdateEvent>,
    convoy_id: u128,
    drone_id: u128,
    callsign: Seq<char>,
    accuracy_x100: u64,
    timestamp_ms: u64,
) -> bool {
    exists|k: u32|
        #[trigger] spec_delivered(
            before,
            after,
            LeaderboardUpdateEventModel {
                convoy_id,
                drone_id,
                callsign,
                new_rank: k,
                old_rank: None,
                accuracy_x100,
                change_type: RankChangeType::ScoreUpdate,
                timestamp_ms,
            },
        )
}

// =============================================================================
// CONTEXT
// =============================================================================

/// Application state shared by every resolver: the tiers, the
/// repositories, one topic per event kind, and the heartbeat pacer.
pub struct ApiContext {
    pub store: PersistenceCore,
    pub leaderboard_repo: LeaderboardRepository,
    pub engagement_repo: EngagementRepository,
    pub convoy_repo: ConvoyRepository,
    pub drone_repo: DroneRepository,
    pub waypoint_repo: WaypointRepository,
    pub telemetry_repo: TelemetryRepository,
    pub engagement_topic: Topic<EngagementEvent>,
    pub leaderboard_topic: Topic<LeaderboardUpdateEvent>,
    pub drone_status_topic: Topic<DroneStatusEvent>,
    pub alert_topic: Topic<AlertEvent>,
    pub telemetry_topic: Topic<Telemetry>,
    pub heartbeat: HeartbeatPacer,
}

impl ApiContext {
    pub open spec fn wf(self) -> bool {
        self.store.wf()
    }

    /// A fresh context: empty tiers, default strategies, no subscribers.
    pub fn new() -> (c: ApiContext)
        ensures
            c.wf(),
            c.store.hot.available,
            c.store.cold.rows@.len() == 0,
            c.store.cold.engagements@.len() == 0,
            c.leaderboard_repo.read_strategy is CacheFirst,
            c.leaderboard_repo.write_strategy is WriteThrough,
            c.engagement_topic.subscribers@.len() == 0,
            c.leaderboard_topic.subscribers@.len() == 0,
    {
        ApiContext {
            store: PersistenceCore::new(),
            leaderboard_repo: LeaderboardRepository::new(),
            engagement_repo: EngagementRepository::new(),
            convoy_repo: ConvoyRepository::new(),
            drone_repo: DroneRepository::new(),
            waypoint_repo: WaypointRepository::new(),
            telemetry_repo: TelemetryRepository::new(),
            engagement_topic: Topic::new(),
            leaderboard_topic: Topic::new(),
            drone_status_topic: Topic::new(),
            alert_topic: Topic::new(),
            telemetry_topic: Topic::new(),
            heartbeat: HeartbeatPacer::new(),
        }
    }
}

// =============================================================================
// QUERY ROOT
// =============================================================================

/// The read surface.
pub struct QueryRoot;

impl QueryRoot {
    pub fn new() -> (r: QueryRoot) {
        QueryRoot
    }

    /// The accuracy ranking for a convoy with its aggregates: entries per
    /// the repository's page contract, then filtered when a filter is
    /// given; sums and the rounded mean accuracy are exact over the
    /// entries returned. The limit is capped at 100: a larger one is
    /// rejected with `InvalidInput`; a malformed convoy id with
    /// `InvalidUuid`. On a fresh system the page is empty with zero
    /// aggregates.
    pub fn get_leaderboard(
        &self,
        ctx: &mut ApiContext,
        convoy_id: &str,
        limit: u32,
        filter: Option<LeaderboardFilter>,
        now_ms: u64,
    ) -> (r: Result<Leaderboard, ApiError>)
        requires
            old(ctx).wf(),
        ensures
            final(ctx).wf(),
            final(ctx).store.cold == old(ctx).store.cold,
            (limit > 100 ==> (r matches Err(e) && e is InvalidInput)),
            (limit <= 100 && !spec_uuid_valid(convoy_id@) ==> (r matches Err(e)
                && e is InvalidUuid)),
            (limit <= 100 && spec_uuid_valid(convoy_id@) && !(old(
                ctx,
            ).leaderboard_repo.read_strategy is CacheOnly) ==> r is Ok),
            (r matches Ok(lb) ==> ({
                &&& lb.convoy_id == spec_uuid_value(convoy_id@)
                &&& lb.entries@.len() <= limit
                &&& lb.total_drones == lb.entries@.len()
                &&& lb.total_engagements == spec_sum_total(lb.entries@)
                &&& lb.total_hits == spec_sum_hits(lb.entries@)
                &&& lb.average_accuracy_x100 == spec_average_acc(lb.entries@)
                &&& (lb.entries@.len() == 0 <==> lb.leader is None)
                &&& (lb.leader matches Some(l) ==> lb.entries@.len() > 0 && l@ == lb.entries@[0]@)
                &&& lb.generated_at_ms == now_ms
                &&& (filter is None ==> crate::tiers::spec_wf_page(lb.entries@))
                &&& (filter is None ==> spec_page_source(
                    old(ctx).store,
                    old(ctx).leaderboard_repo.read_strategy,
                    spec_uuid_value(convoy_id@) as u128,
                    limit as int,
                    lb.entries@,
                ))
                &&& (filter matches Some(f) ==> spec_filtered_from(
                    old(ctx).store,
                    old(ctx).leaderboard_repo.read_strategy,
                    spec_uuid_value(convoy_id@) as u128,
                    limit as int,
                    f,
                    lb.entries@,
                ))
            })),
    {
        if limit > 100 {
            return Err(ApiError::InvalidInput(String::from_str("limit above 100")));
        }
        let cid = match parse_uuid(convoy_id) {
            Some(v) => v,
            None => {
                return Err(ApiError::InvalidUuid(String::from_str(convoy_id)));
            },
        };
        let mut page = match ctx.leaderboard_repo.get_leaderboard(
            &mut ctx.store,
            cid,
            limit as usize,
        ) {
            Ok(p) => p,
            Err(e) => {
                return Err(ApiError::Persistence(e));
            },
        };
        let ghost page0 = page@;
        if page.len() > limit as usize {
            page.truncate(limit as usize);
            proof {
                assert(page@ =~= page0.subrange(0, limit as int));
                lemma_wf_page_prefix(page0, page@);
            }
        }
        proof {
            let rs = old(ctx).leaderboard_repo.read_strategy;
            let cached = spec_lookup(old(ctx).store.hot.leaderboards@, cid);
            if rs is DbOnly || rs is ReadThrough || (rs is CacheFirst && !(old(
                ctx,
            ).store.hot.available && cached is Some)) {
                assert(page0.len() <= limit as int);
                assert(page@ == page0);
            } else {
                let q = cached->Some_0;
                assert(crate::tiers::entry_models(page0) == crate::tiers::entry_models(q@));
                if page0.len() > limit as int {
                    lemma_models_prefix(page0, page@);
                    assert(crate::tiers::entry_models(page@) =~= crate::tiers::entry_models(
                        q@,
                    ).take(min(limit as int, q@.len() as int)));
                } else {
                    assert(crate::tiers::entry_models(page@) =~= crate::tiers::entry_models(
                        q@,
                    ).take(min(limit as int, q@.len() as int)));
                }
            }
            assert(spec_page_source(old(ctx).store, rs, cid, limit as int, page@));
        }
        let entries = match &filter {
            Some(f) => {
                let filtered = filter_entries(&page, f);
                proof {
                    lemma_filter_len(page@, *f);
                    assert(crate::tiers::entry_models(filtered@).len() == filtered@.len());
                    assert(crate::tiers::entry_models(spec_filter_entries(page@, *f)).len()
                        == spec_filter_entries(page@, *f).len());
                    assert(filtered@.len() <= page@.len());
                    assert(spec_filtered_from(
                        old(ctx).store,
                        old(ctx).leaderboard_repo.read_strategy,
                        cid,
                        limit as int,
                        *f,
                        filtered@,
                    ));
                }
                filtered
            },
            None => page,
        };
        proof {
            assert(entries@.len() <= limit);
        }
        let (sum_total, sum_hits, sum_acc) = sum_page(&entries);
        let avg = average_from(sum_acc, entries.len());
        let leader = if entries.len() > 0 {
            Some(entries[0].duplicate())
        } else {
            None
        };
        Ok(
            Leaderboard {
                convoy_id: cid,
                total_drones: entries.len() as u64,
                average_accuracy_x100: avg,
                leader,
                total_engagements: sum_total,
                total_hits: sum_hits,
                generated_at_ms: now_ms,
                entries,
            },
        )
    }

    /// An asset's ranking entry at its first position within the convoy
    /// page of up to 100 (member if and only if some page entry carries
    /// the asset), or nothing. A malformed id is rejected with
    /// `InvalidUuid`.
    pub fn get_drone_rank(&self, ctx: &mut ApiContext, convoy_id: &str, drone_id: &str) -> (r:
        Result<Option<LeaderboardEntry>, ApiError>)
        requires
            old(ctx).wf(),
        ensures
            final(ctx).wf(),
            final(ctx).store.cold == old(ctx).store.cold,
            ((!spec_uuid_valid(convoy_id@) || !spec_uuid_valid(drone_id@)) ==> (r matches Err(e)
                && e is InvalidUuid)),
            (spec_uuid_valid(convoy_id@) && spec_uuid_valid(drone_id@) && !(old(
                ctx,
            ).leaderboard_repo.read_strategy is CacheOnly) ==> r is Ok),
            (r matches Ok(o) ==> (spec_uuid_valid(convoy_id@) && spec_uuid_valid(drone_id@)
                ==> spec_rank_result(
                old(ctx).store,
                old(ctx).leaderboard_repo.read_strategy,
                spec_uuid_value(convoy_id@) as u128,
                spec_uuid_value(drone_id@) as u128,
                o,
            ))),
            (r matches Ok(Some(e)) ==> e.drone_id == spec_uuid_value(drone_id@)),
    {
        let cid = match parse_uuid(convoy_id) {
            Some(v) => v,
            None => {
                return Err(ApiError::InvalidUuid(String::from_str(convoy_id)));
            },
        };
        let did = match parse_uuid(drone_id) {
            Some(v) => v,
            None => {
                return Err(ApiError::InvalidUuid(String::from_str(drone_id)));
            },
        };
        let mut page = match ctx.leaderboard_repo.get_leaderboard(&mut ctx.store, cid, 100) {
            Ok(p) => p,
            Err(e) => {
                return Err(ApiError::Persistence(e));
            },
        };
        let ghost page0 = page@;
        if page.len() > 100 {
            page.truncate(100);
            proof {
                assert(page@ =~= page0.subrange(0, 100));
            }
        }
        proof {
            let rs = old(ctx).leaderboard_repo.read_strategy;
            let cached = spec_lookup(old(ctx).store.hot.leaderboards@, cid);
            if rs is DbOnly || rs is ReadThrough || (rs is CacheFirst && !(old(
                ctx,
            ).store.hot.available && cached is Some)) {
                assert(page0.len() <= 100);
                assert(page@ == page0);
            } else {
                let q = cached->Some_0;
                assert(crate::tiers::entry_models(page0) == crate::tiers::entry_models(q@));
                assert(crate::tiers::entry_models(page0).len() == page0.len());
                assert(crate::tiers::entry_models(q@).len() == q@.len());
                if page0.len() > 100 {
                    assert(page@.len() == 100);
                    lemma_models_prefix(page0, page@);
                    assert(crate::tiers::entry_models(page@) =~= crate::tiers::entry_models(
                        q@,
                    ).take(min(100, q@.len() as int)));
                } else {
                    assert(page@ == page0);
                    assert(crate::tiers::entry_models(page@) =~= crate::tiers::entry_models(
                        q@,
                    ).take(min(100, q@.len() as int)));
                }
            }
            assert(spec_page_source(old(ctx).store, rs, cid, 100, page@));
        }
        let found = find_in_page(&page, did);
        let out: Option<LeaderboardEntry> = match found {
            Some(i) => Some(page[i].duplicate()),
            None => None,
        };
        proof {
            assert(spec_rank_result(
                old(ctx).store,
                old(ctx).leaderboard_repo.read_strategy,
                cid,
                did,
                out,
            ));
        }
        Ok(out)
    }

    /// Statistics of a convoy, aggregated exactly over its ranking page of
    /// up to 100.
    pub fn get_convoy_stats(&self, ctx: &mut ApiContext, convoy_id: &str, now_ms: u64) -> (r:
        Result<ConvoyStats, ApiError>)
        requires
            old(ctx).wf(),
        ensures
            final(ctx).wf(),
            final(ctx).store.cold == old(ctx).store.cold,
            (!spec_uuid_valid(convoy_id@) ==> (r matches Err(e) && e is InvalidUuid)),
            (spec_uuid_valid(convoy_id@) && !(old(ctx).leaderboard_repo.read_strategy
                is CacheOnly) ==> r is Ok),
            (r matches Ok(st) ==> (st.convoy_id == spec_uuid_value(convoy_id@) && st.timestamp_ms
                == now_ms && spec_stats_from(
                old(ctx).store,
                old(ctx).leaderboard_repo.read_strategy,
                spec_uuid_value(convoy_id@) as u128,
                st,
            ))),
    {
        let cid = match parse_uuid(convoy_id) {
            Some(v) => v,
            None => {
                return Err(ApiError::InvalidUuid(String::from_str(convoy_id)));
            },
        };
        let mut page = match ctx.leaderboard_repo.get_leaderboard(&mut ctx.store, cid, 100) {
            Ok(p) => p,
            Err(e) => {
                return Err(ApiError::Persistence(e));
            },
        };
        let ghost page0 = page@;
        if page.len() > 100 {
            page.truncate(100);
            proof {
                assert(page@ =~= page0.subrange(0, 100));
            }
        }
        proof {
            let rs = old(ctx).leaderboard_repo.read_strategy;
            let cached = spec_lookup(old(ctx).store.hot.leaderboards@, cid);
            if rs is DbOnly || rs is ReadThrough || (rs is CacheFirst && !(old(
                ctx,
            ).store.hot.available && cached is Some)) {
                assert(page0.len() <= 100);
                assert(page@ == page0);
            } else {
                let q = cached->Some_0;
                assert(crate::tiers::entry_models(page0) == crate::tiers::entry_models(q@));
                assert(crate::tiers::entry_models(page0).len() == page0.len());
                assert(crate::tiers::entry_models(q@).len() == q@.len());
                if page0.len() > 100 {
                    assert(page@.len() == 100);
                    lemma_models_prefix(page0, page@);
                    assert(crate::tiers::entry_models(page@) =~= crate::tiers::entry_models(
                        q@,
                    ).take(min(100, q@.len() as int)));
                } else {
                    assert(page@ == page0);
                    assert(crate::tiers::entry_models(page@) =~= crate::tiers::entry_models(
                        q@,
                    ).take(min(100, q@.len() as int)));
                }
            }
            assert(spec_page_source(old(ctx).store, rs, cid, 100, page@));
        }
        let (sum_total, sum_hits, sum_acc) = sum_page(&page);
        let avg = average_from(sum_acc, page.len());
        let st = ConvoyStats {
            convoy_id: cid,
            drone_count: page.len() as u64,
            total_engagements: sum_total,
            total_hits: sum_hits,
            average_accuracy_x100: avg,
            timestamp_ms: now_ms,
        };
        proof {
            assert(spec_stats_from(
                old(ctx).store,
                old(ctx).leaderboard_repo.read_strategy,
                cid,
                st,
            ));
        }
        Ok(st)
    }

    /// All convoys whose status is ACTIVE.
    pub fn get_active_convoys(&self, ctx: &ApiContext) -> (r: Vec<Convoy>)
        requires
            ctx.wf(),
        ensures
            r@.map_values(|c: Convoy| c@) == crate::repos::spec_active_convoys(
                ctx.store.cold.convoys@,
            ),
    {
        ctx.convoy_repo.get_active(&ctx.store)
    }

    /// A convoy by id; a malformed id is rejected with `InvalidUuid`.
    pub fn get_convoy(&self, ctx: &ApiContext, convoy_id: &str) -> (r: Result<
        Option<Convoy>,
        ApiError,
    >)
        requires
            ctx.wf(),
        ensures
            (!spec_uuid_valid(convoy_id@) ==> (r matches Err(e) && e is InvalidUuid)),
            (spec_uuid_valid(convoy_id@) ==> (match spec_lookup(
                ctx.store.cold.convoys@,
                spec_uuid_value(convoy_id@) as u128,
            ) {
                Some(c) => r matches Ok(Some(out)) && out@ == c@ && out.convoy_id
                    == spec_uuid_value(convoy_id@),
                None => r matches Ok(o) && o is None,
            })),
    {
        let cid = match parse_uuid(convoy_id) {
            Some(v) => v,
            None => {
                return Err(ApiError::InvalidUuid(String::from_str(convoy_id)));
            },
        };
        Ok(ctx.convoy_repo.get(&ctx.store, cid))
    }

    /// An asset by (convoy, asset) id pair.
    pub fn get_drone(&self, ctx: &ApiContext, convoy_id: &str, drone_id: &str) -> (r: Result<
        Option<Drone>,
        ApiError,
    >)
        requires
            ctx.wf(),
        ensures
            ((!spec_uuid_valid(convoy_id@) || !spec_uuid_valid(drone_id@)) ==> (r matches Err(e)
                && e is InvalidUuid)),
            (spec_uuid_valid(convoy_id@) && spec_uuid_valid(drone_id@) ==> (match spec_lookup2(
                ctx.store.cold.drones@,
                (spec_uuid_value(convoy_id@) as u128, spec_uuid_value(drone_id@) as u128),
            ) {
                Some(d) => r matches Ok(Some(out)) && out@ == d@ && out.convoy_id
                    == spec_uuid_value(convoy_id@) && out.drone_id == spec_uuid_value(drone_id@),
                None => r matches Ok(o) && o is None,
            })),
    {
        let cid = match parse_uuid(convoy_id) {
            Some(v) => v,
            None => {
                return Err(ApiError::InvalidUuid(String::from_str(convoy_id)));
            },
        };
        let did = match parse_uuid(drone_id) {
            Some(v) => v,
            None => {
                return Err(ApiError::InvalidUuid(String::from_str(drone_id)));
            },
        };
        Ok(ctx.drone_repo.get(&ctx.store, cid, did))
    }

    /// All assets of a convoy.
    pub fn get_drones(&self, ctx: &ApiContext, convoy_id: &str) -> (r: Result<Vec<Drone>, ApiError>)
        requires
            ctx.wf(),
        ensures
            (!spec_uuid_valid(convoy_id@) ==> (r matches Err(e) && e is InvalidUuid)),
            (spec_uuid_valid(convoy_id@) ==> r is Ok),
            (r matches Ok(ds) ==> ds@.map_values(|d: Drone| d@) == crate::repos::spec_convoy_drones(
                ctx.store.cold.drones@,
                spec_uuid_value(convoy_id@) as u128,
            )),
    {
        let cid = match parse_uuid(convoy_id) {
            Some(v) => v,
            None => {
                return Err(ApiError::InvalidUuid(String::from_str(convoy_id)));
            },
        };
        Ok(ctx.drone_repo.get_by_convoy(&ctx.store, cid))
    }

    /// All waypoints of an asset.
    pub fn get_waypoints(&self, ctx: &ApiContext, drone_id: &str) -> (r: Result<
        Vec<Waypoint>,
        ApiError,
    >)
        requires
            ctx.wf(),
        ensures
            (!spec_uuid_valid(drone_id@) ==> (r matches Err(e) && e is InvalidUuid)),
            (spec_uuid_valid(drone_id@) ==> r is Ok),
            (r matches Ok(ws) ==> ws@.map_values(|w: Waypoint| w@)
                == crate::repos::spec_drone_waypoints(
                ctx.store.cold.waypoints@,
                spec_uuid_value(drone_id@) as u128,
            )),
    {
        let did = match parse_uuid(drone_id) {
            Some(v) => v,
            None => {
                return Err(ApiError::InvalidUuid(String::from_str(drone_id)));
            },
        };
        Ok(ctx.waypoint_repo.get_waypoints(&ctx.store, did))
    }

    /// The newest engagements of a convoy, paginated.
    pub fn get_engagements(&self, ctx: &ApiContext, convoy_id: &str, pagination: PaginationInput)
        -> (r: Result<Vec<Engagement>, ApiError>)
        requires
            ctx.wf(),
        ensures
            (!spec_uuid_valid(convoy_id@) ==> (r matches Err(e) && e is InvalidUuid)),
            (spec_uuid_valid(convoy_id@) ==> r is Ok),
            (r matches Ok(es) ==> ({
                let all = crate::repos::spec_recent_matching(
                    ctx.store.cold.engagements@,
                    (|m: crate::entities::EngagementModel| m.convoy_id == spec_uuid_value(
                        convoy_id@,
                    ) as u128),
                );
                crate::repos::engagement_models(es@) == all.take(
                    min(pagination.limit as int, all.len() as int),
                )
            })),
    {
        let cid = match parse_uuid(convoy_id) {
            Some(v) => v,
            None => {
                return Err(ApiError::InvalidUuid(String::from_str(convoy_id)));
            },
        };
        Ok(ctx.engagement_repo.get_by_convoy(&ctx.store, cid, pagination.limit as usize))
    }

    /// The newest engagements of an asset, paginated.
    pub fn get_drone_engagements(
        &self,
        ctx: &ApiContext,
        drone_id: &str,
        pagination: PaginationInput,
    ) -> (r: Result<Vec<Engagement>, ApiError>)
        requires
            ctx.wf(),
        ensures
            (!spec_uuid_valid(drone_id@) ==> (r matches Err(e) && e is InvalidUuid)),
            (spec_uuid_valid(drone_id@) ==> r is Ok),
            (r matches Ok(es) ==> ({
                let all = crate::repos::spec_recent_matching(
                    ctx.store.cold.engagements_by_drone@,
                    (|m: crate::entities::EngagementModel| m.drone_id == spec_uuid_value(
                        drone_id@,
                    ) as u128),
                );
                crate::repos::engagement_models(es@) == all.take(
                    min(pagination.limit as int, all.len() as int),
                )
            })),
    {
        let did = match parse_uuid(drone_id) {
            Some(v) => v,
            None => {
                return Err(ApiError::InvalidUuid(String::from_str(drone_id)));
            },
        };
        Ok(ctx.engagement_repo.get_by_drone(&ctx.store, did, pagination.limit as usize))
    }

    /// The newest telemetry snapshot of an asset: the hot-tier cached one
    /// while the tier is up and holds one, else the newest cold row.
    pub fn get_latest_telemetry(&self, ctx: &ApiContext, drone_id: &str) -> (r: Result<
        Option<Telemetry>,
        ApiError,
    >)
        requires
            ctx.wf(),
        ensures
            (!spec_uuid_valid(drone_id@) ==> (r matches Err(e) && e is InvalidUuid)),
            (spec_uuid_valid(drone_id@) ==> (r matches Ok(o) && ({
                let did = spec_uuid_value(drone_id@) as u128;
                let cached = spec_lookup(ctx.store.hot.latest_telemetry@, did);
                let hot_hit = ctx.store.hot.available && cached is Some;
                &&& (hot_hit ==> (match cached {
                    Some(t) => o matches Some(out) && out@ == t@,
                    None => false,
                }))
                &&& (!hot_hit ==> (match crate::repos::spec_latest_telemetry(
                    ctx.store.cold.telemetry@,
                    did,
                ) {
                    Some(m) => o matches Some(out) && out@ == m,
                    None => o is None,
                }))
            }))),
    {
        let did = match parse_uuid(drone_id) {
            Some(v) => v,
            None => {
                return Err(ApiError::InvalidUuid(String::from_str(drone_id)));
            },
        };
        Ok(ctx.telemetry_repo.get_latest(&ctx.store, did))
    }

    /// The health probe body.
    pub fn health(&self) -> (r: &'static str)
        ensures
            r@ == "OK"@,
    {
        "OK"
    }

    /// The crate version.
    pub fn version(&self) -> (v: String)
        ensures
            v@.len() > 0,
    {
        crate::version()
    }
}

/// Sum a page's totals, hits, and accuracies.
fn sum_page(v: &Vec<LeaderboardEntry>) -> (r: (u128, u128, u128))
    requires
        v@.len() <= 100,
    ensures
        r.0 == spec_sum_total(v@),
        r.1 == spec_sum_hits(v@),
        r.2 == spec_sum_acc(v@),
        r.0 <= v@.len() * (u64::MAX as int),
        r.1 <= v@.len() * (u64::MAX as int),
        r.2 <= v@.len() * (u64::MAX as int),
{
    let mut st: u128 = 0;
    let mut sh: u128 = 0;
    let mut sa: u128 = 0;
    let mut i: usize = 0;
    while i < v.len()
        invariant
            i <= v@.len(),
            v@.len() <= 100,
            st == spec_sum_total(v@.subrange(0, i as int)),
            sh == spec_sum_hits(v@.subrange(0, i as int)),
            sa == spec_sum_acc(v@.subrange(0, i as int)),
            st <= i * (u64::MAX as int),
            sh <= i * (u64::MAX as int),
            sa <= i * (u64::MAX as int),
        decreases v@.len() - i,
    {
        let ghost pre = v@.subrange(0, i as int);
        let ghost post = v@.subrange(0, i + 1);
        proof {
            assert(post.drop_last() =~= pre);
            assert(post.last() == v@[i as int]);
        }
        st = st + (v[i].stats.total_engagements as u128);
        sh = sh + (v[i].stats.successful_hits as u128);
        sa = sa + (v[i].accuracy_x100 as u128);
        i += 1;
    }
    proof {
        assert(v@.subrange(0, v@.len() as int) =~= v@);
    }
    (st, sh, sa)
}

/// The rounded mean accuracy from a page's accuracy sum.
fn average_from(sum_acc: u128, n: usize) -> (r: u64)
    requires
        n <= 100,
        sum_acc <= n * (u64::MAX as int),
    ensures
        n == 0 ==> r == 0,
        n > 0 ==> r == (2 * sum_acc + n) / (2 * n as int),
{
    if n == 0 {
        0
    } else {
        proof {
            assert(sum_acc <= 100 * (u64::MAX as int)) by (nonlinear_arith)
                requires
                    sum_acc <= n * (u64::MAX as int),
                    n <= 100,
            ;
            assert((2 * sum_acc + n) / (2 * n as int) <= u64::MAX) by (nonlinear_arith)
                requires
                    n >= 1,
                    0 <= sum_acc,
                    sum_acc <= n * (u64::MAX as int),
            ;
        }
        let q = (2 * sum_acc + (n as u128)) / (2 * (n as u128));
        q as u64
    }
}

/// A prefix of a well-formed page is well formed.
proof fn lemma_wf_page_prefix(full: Seq<LeaderboardEntry>, pre: Seq<LeaderboardEntry>)
    requires
        crate::tiers::spec_wf_page(full),
        pre.len() <= full.len(),
        forall|i: int| 0 <= i < pre.len() ==> #[trigger] pre[i] == full[i],
    ensures
        crate::tiers::spec_wf_page(pre),
{
    assert forall|i: int, j: int| 0 <= i < j < pre.len() implies !crate::ranking::spec_outranks(
        #[trigger] pre[j],
        #[trigger] pre[i],
    ) by {
        assert(!crate::ranking::spec_outranks(full[j], full[i]));
    }
}

/// Find the first page position carrying the asset.
fn find_in_page(page: &Vec<LeaderboardEntry>, did: u128) -> (r: Option<usize>)
    ensures
        match r {
            Some(i) => spec_first_match(page@, did) == Some(i as int) && i < page@.len()
                && page@[i as int].drone_id == did,
            None => spec_first_match(page@, did) is None,
        },
{
    let mut i: usize = 0;
    while i < page.len()
        invariant
            i <= page@.len(),
            forall|j: int| 0 <= j < i ==> (#[trigger] page@[j]).drone_id != did,
        decreases page@.len() - i,
    {
        if page[i].drone_id == did {
            proof {
                lemma_first_match_at(page@, did, i as int);
            }
            return Some(i);
        }
        i += 1;
    }
    proof {
        lemma_first_match_absent(page@, did);
    }
    None
}

/// If nothing before `i` carries the asset and position `i` does, the
/// first match is at `i`.
proof fn lemma_first_match_at(s: Seq<LeaderboardEntry>, did: u128, i: int)
    requires
        0 <= i < s.len(),
        forall|j: int| 0 <= j < i ==> (#[trigger] s[j]).drone_id != did,
        s[i].drone_id == did,
    ensures
        spec_first_match(s, did) == Some(i),
    decreases i,
{
    if i == 0 {
    } else {
        assert(s.first().drone_id != did);
        assert(forall|j: int| 0 <= j < i - 1 ==> (#[trigger] s.drop_first()[j]).drone_id != did);
        assert(s.drop_first()[i - 1] == s[i]);
        lemma_first_match_at(s.drop_first(), did, i - 1);
    }
}

/// No position carries the asset, so there is no first match.
proof fn lemma_first_match_absent(s: Seq<LeaderboardEntry>, did: u128)
    requires
        forall|j: int| 0 <= j < s.len() ==> (#[trigger] s[j]).drone_id != did,
    ensures
        spec_first_match(s, did) is None,
    decreases s.len(),
{
    if s.len() > 0 {
        assert(forall|j: int|
            0 <= j < s.len() - 1 ==> #[trigger] s.drop_first()[j] == s[j + 1]);
        lemma_first_match_absent(s.drop_first(), did);
    }
}

/// The models of a prefix are the take of the models.
proof fn lemma_models_prefix(full: Seq<LeaderboardEntry>, pre: Seq<LeaderboardEntry>)
    requires
        pre.len() <= full.len(),
        forall|i: int| 0 <= i < pre.len() ==> #[trigger] pre[i] == full[i],
    ensures
        crate::tiers::entry_models(pre) == crate::tiers::entry_models(full).take(pre.len() as int),
{
    assert(crate::tiers::entry_models(pre) =~= crate::tiers::entry_models(full).take(
        pre.len() as int,
    ));
}

/// Filtering never lengthens a page.
proof fn lemma_filter_len(s: Seq<LeaderboardEntry>, f: LeaderboardFilter)
    ensures
        spec_filter_entries(s, f).len() <= s.len(),
    decreases s.len(),
{
    if s.len() > 0 {
        lemma_filter_len(s.drop_last(), f);
    }
}

// =============================================================================
// MUTATION ROOT
// =============================================================================

/// The write surface.
pub struct MutationRoot;

impl MutationRoot {
    pub fn new() -> (r: MutationRoot) {
        MutationRoot
    }

    /// Record a hit or miss for accuracy tracking.
    ///
    /// A malformed id is rejected with `InvalidUuid` and nothing changes.
    /// Otherwise the asset's leaderboard row has the engagement folded in
    /// (callsign and platform from the stored asset when one exists), the
    /// convoy's cached page is invalidated under the default write
    /// strategy, and exactly one engagement event and one ranking-update
    /// event are fanned out: every live subscriber with buffer room
    /// receives each, a full one is dropped. The call fails otherwise only
    /// when the stored engagement total is at the integer limit.
    pub fn record_engagement(
        &self,
        ctx: &mut ApiContext,
        input: &RecordEngagementInput,
        now_ms: u64,
    ) -> (r: Result<RecordEngagementResult, ApiError>)
        requires
            old(ctx).wf(),
        ensures
            final(ctx).wf(),
            ((!spec_uuid_valid(input.convoy_id@) || !spec_uuid_valid(input.drone_id@)) ==> (
            r matches Err(e) && e is InvalidUuid && *final(ctx) == *old(ctx))),
            (spec_uuid_valid(input.convoy_id@) && spec_uuid_valid(input.drone_id@) ==> ({
                let c = spec_uuid_value(input.convoy_id@) as u128;
                let d = spec_uuid_value(input.drone_id@) as u128;
                let prev = spec_prev_stats(old(ctx).store.cold.rows@, c, d);
                &&& (prev.total_engagements == u64::MAX ==> (r is Err && *final(ctx) == *old(
                    ctx,
                )))
                &&& (prev.total_engagements < u64::MAX ==> (r matches Ok(res) && ({
                    let m = spec_updated_model(
                        old(ctx).store.cold.rows@,
                        c,
                        d,
                        (match spec_lookup2(old(ctx).store.cold.drones@, (c, d)) {
                            Some(dr) => dr@.callsign,
                            None => "UNKNOWN"@,
                        }),
                        (match spec_lookup2(old(ctx).store.cold.drones@, (c, d)) {
                            Some(dr) => dr.platform_type,
                            None => PlatformType::Mq9Reaper,
                        }),
                        input.hit,
                        now_ms,
                    );
                    &&& res.success
                    &&& res.rank_change == 0
                    &&& res.entry@ == m
                    &&& res.new_accuracy_x100 == m.accuracy_x100
                    &&& (old(ctx).leaderboard_repo.write_strategy is WriteThrough
                        ==> res.new_rank == (match spec_cold_rank(
                        final(ctx).store.cold.rows@,
                        c,
                        d,
                    ) {
                        Some(k) => if k <= 100 {
                            k as u32
                        } else {
                            0u32
                        },
                        None => 0u32,
                    }))
                    &&& (spec_lookup2(final(ctx).store.cold.rows@, (c, d)) matches Some(row)
                        && row@ == m)
                    &&& forall|k2: (u128, u128)|
                        k2 != (c, d) ==> spec_lookup2(final(ctx).store.cold.rows@, k2)
                            == spec_lookup2(old(ctx).store.cold.rows@, k2)
                    &&& final(ctx).store.cold.engagements == old(ctx).store.cold.engagements
                    &&& final(ctx).store.cold.engagements_by_drone == old(
                        ctx,
                    ).store.cold.engagements_by_drone
                    &&& final(ctx).store.cold.counters == old(ctx).store.cold.counters
                    &&& final(ctx).store.cold.convoys == old(ctx).store.cold.convoys
                    &&& final(ctx).store.cold.drones == old(ctx).store.cold.drones
                    &&& final(ctx).store.cold.waypoints == old(ctx).store.cold.waypoints
                    &&& final(ctx).store.cold.telemetry == old(ctx).store.cold.telemetry
                    &&& spec_delivered(
                        old(ctx).engagement_topic,
                        final(ctx).engagement_topic,
                        EngagementEventModel {
                            convoy_id: c,
                            drone_id: d,
                            callsign: m.callsign,
                            hit: input.hit,
                            weapon_type: (match input.weapon_type {
                                Some(w) => w,
                                None => WeaponType::Agm114Hellfire,
                            }),
                            new_accuracy_x100: m.accuracy_x100,
                            timestamp_ms: now_ms,
                        },
                    )
                    &&& spec_delivered(
                        old(ctx).leaderboard_topic,
                        final(ctx).leaderboard_topic,
                        LeaderboardUpdateEventModel {
                            convoy_id: c,
                            drone_id: d,
                            callsign: m.callsign,
                            new_rank: res.new_rank,
                            old_rank: None,
                            accuracy_x100: m.accuracy_x100,
                            change_type: RankChangeType::ScoreUpdate,
                            timestamp_ms: now_ms,
                        },
                    )
                    &&& spec_ranking_update_delivered(
                        old(ctx).leaderboard_topic,
                        final(ctx).leaderboard_topic,
                        c,
                        d,
                        m.callsign,
                        m.accuracy_x100,
                        now_ms,
                    )
                    &&& final(ctx).drone_status_topic == old(ctx).drone_status_topic
                    &&& final(ctx).alert_topic == old(ctx).alert_topic
                    &&& final(ctx).telemetry_topic == old(ctx).telemetry_topic
                    &&& final(ctx).leaderboard_repo == old(ctx).leaderboard_repo
                    &&& final(ctx).engagement_repo == old(ctx).engagement_repo
                    &&& final(ctx).convoy_repo == old(ctx).convoy_repo
                    &&& final(ctx).drone_repo == old(ctx).drone_repo
                    &&& final(ctx).waypoint_repo == old(ctx).waypoint_repo
                    &&& final(ctx).telemetry_repo == old(ctx).telemetry_repo
                    &&& final(ctx).heartbeat == old(ctx).heartbeat
                    &&& final(ctx).store.hot.available == old(ctx).store.hot.available
                    &&& (old(ctx).leaderboard_repo.write_strategy is DbOnly
                        ==> final(ctx).store.hot == old(ctx).store.hot)
                    &&& (!old(ctx).store.hot.available ==> final(ctx).store.hot == old(
                        ctx,
                    ).store.hot)
                    &&& (!(old(ctx).leaderboard_repo.write_strategy is DbOnly) && old(
                        ctx,
                    ).store.hot.available ==> ({
                        &&& spec_lookup(final(ctx).store.hot.leaderboards@, c) is None
                        &&& forall|c2: u128|
                            c2 != c ==> spec_lookup(final(ctx).store.hot.leaderboards@, c2)
                                == spec_lookup(old(ctx).store.hot.leaderboards@, c2)
                        &&& final(ctx).store.hot.counters == old(ctx).store.hot.counters
                        &&& final(ctx).store.hot.latest_telemetry == old(
                            ctx,
                        ).store.hot.latest_telemetry
                        &&& final(ctx).store.hot.rosters == old(ctx).store.hot.rosters
                    }))
                })))
            })),
    {
        let cid = match parse_uuid(input.convoy_id.as_str()) {
            Some(v) => v,
            None => {
                return Err(ApiError::InvalidUuid(input.convoy_id.clone()));
            },
        };
        let did = match parse_uuid(input.drone_id.as_str()) {
            Some(v) => v,
            None => {
                return Err(ApiError::InvalidUuid(input.drone_id.clone()));
            },
        };
        let (callsign, platform): (String, PlatformType) = match ctx.drone_repo.get(
            &ctx.store,
            cid,
            did,
        ) {
            Some(dr) => (dr.callsign, dr.platform_type),
            None => (String::from_str("UNKNOWN"), PlatformType::Mq9Reaper),
        };
        let entry = match ctx.leaderboard_repo.update_entry(
            &mut ctx.store,
            cid,
            did,
            callsign.as_str(),
            platform,
            input.hit,
            now_ms,
        ) {
            Ok(e) => e,
            Err(e) => {
                return Err(ApiError::Persistence(e));
            },
        };
        let new_rank: u32 = match ctx.leaderboard_repo.get_rank(&ctx.store, cid, did) {
            Some(k) => k,
            None => 0,
        };
        let weapon = match input.weapon_type {
            Some(w) => w,
            None => WeaponType::Agm114Hellfire,
        };
        let event = EngagementEvent {
            convoy_id: cid,
            drone_id: did,
            callsign: entry.callsign.clone(),
            hit: input.hit,
            weapon_type: weapon,
            new_accuracy_x100: entry.accuracy_x100,
            timestamp_ms: now_ms,
        };
        ctx.engagement_topic.publish(&event);
        let update = LeaderboardUpdateEvent {
            convoy_id: cid,
            drone_id: did,
            callsign: entry.callsign.clone(),
            new_rank,
            old_rank: None,
            accuracy_x100: entry.accuracy_x100,
            change_type: RankChangeType::ScoreUpdate,
            timestamp_ms: now_ms,
        };
        ctx.leaderboard_topic.publish(&update);
        proof {
            assert(spec_delivered(
                old(ctx).leaderboard_topic,
                ctx.leaderboard_topic,
                LeaderboardUpdateEventModel {
                    convoy_id: cid,
                    drone_id: did,
                    callsign: entry.callsign@,
                    new_rank: new_rank,
                    old_rank: None,
                    accuracy_x100: entry.accuracy_x100,
                    change_type: RankChangeType::ScoreUpdate,
                    timestamp_ms: now_ms,
                },
            ));
            assert(spec_ranking_update_delivered(
                old(ctx).leaderboard_topic,
                ctx.leaderboard_topic,
                cid,
                did,
                entry.callsign@,
                entry.accuracy_x100,
                now_ms,
            ));
        }
        let acc = entry.accuracy_x100;
        Ok(
            RecordEngagementResult {
                success: true,
                entry,
                new_rank,
                rank_change: 0,
                new_accuracy_x100: acc,
            },
        )
    }

    /// Create a full engagement record.
    ///
    /// The hit or miss is recorded through the same path as
    /// `record_engagement`; the full record is persisted to both mirrors
    /// with damage assessment PENDING_BDA on a hit and MISSED on a miss;
    /// the constructed record is returned. The range to target, in meters,
    /// is computed from the shooter and target positions at the boundary
    /// and supplied by the caller, as is the record's id, so that a
    /// retried call stores the same record.
    pub fn create_engagement(
        &self,
        ctx: &mut ApiContext,
        input: &RecordEngagementInput,
        engagement_id: u128,
        target_coordinates: crate::domain::Coordinates,
        shooter_position: crate::domain::Coordinates,
        range_m: u64,
        authorization_code: &str,
        roe_compliant: bool,
        now_ms: u64,
    ) -> (r: Result<Engagement, ApiError>)
        requires
            old(ctx).wf(),
        ensures
            final(ctx).wf(),
            ((!spec_uuid_valid(input.convoy_id@) || !spec_uuid_valid(input.drone_id@)) ==> (
            r matches Err(e) && e is InvalidUuid && *final(ctx) == *old(ctx))),
            (spec_uuid_valid(input.convoy_id@) && spec_uuid_valid(input.drone_id@)
                && spec_prev_stats(
                old(ctx).store.cold.rows@,
                spec_uuid_value(input.convoy_id@) as u128,
                spec_uuid_value(input.drone_id@) as u128,
            ).total_engagements < u64::MAX ==> r is Ok),
            (r matches Ok(e) ==> ({
                let c = spec_uuid_value(input.convoy_id@) as u128;
                let d = spec_uuid_value(input.drone_id@) as u128;
                let m = spec_updated_model(
                    old(ctx).store.cold.rows@,
                    c,
                    d,
                    (match spec_lookup2(old(ctx).store.cold.drones@, (c, d)) {
                        Some(dr) => dr@.callsign,
                        None => "UNKNOWN"@,
                    }),
                    (match spec_lookup2(old(ctx).store.cold.drones@, (c, d)) {
                        Some(dr) => dr.platform_type,
                        None => PlatformType::Mq9Reaper,
                    }),
                    input.hit,
                    now_ms,
                );
                &&& e.engagement_id == engagement_id
                &&& e.convoy_id == c
                &&& e.drone_id == d
                &&& e.hit == input.hit
                &&& e.range_m == range_m
                &&& e.engaged_at_ms == now_ms
                &&& e.damage_assessment == (if input.hit {
                    DamageAssessment::PendingBda
                } else {
                    DamageAssessment::Missed
                })
                &&& e.roe_compliant == roe_compliant
                &&& e.authorization_code@ == authorization_code@
                &&& final(ctx).store.cold.engagements@.len() == old(
                    ctx,
                ).store.cold.engagements@.len() + 1
                &&& final(ctx).store.cold.engagements@.last()@ == e@
                &&& final(ctx).store.cold.engagements@.drop_last() == old(
                    ctx,
                ).store.cold.engagements@
                &&& final(ctx).store.cold.engagements_by_drone@.len() == old(
                    ctx,
                ).store.cold.engagements_by_drone@.len() + 1
                &&& final(ctx).store.cold.engagements_by_drone@.last()@ == e@
                &&& (spec_lookup2(final(ctx).store.cold.rows@, (c, d)) matches Some(row)
                    && row@ == m)
                &&& forall|k2: (u128, u128)|
                    k2 != (c, d) ==> spec_lookup2(final(ctx).store.cold.rows@, k2)
                        == spec_lookup2(old(ctx).store.cold.rows@, k2)
                &&& spec_delivered(
                    old(ctx).engagement_topic,
                    final(ctx).engagement_topic,
                    EngagementEventModel {
                        convoy_id: c,
                        drone_id: d,
                        callsign: m.callsign,
                        hit: input.hit,
                        weapon_type: (match input.weapon_type {
                            Some(w) => w,
                            None => WeaponType::Agm114Hellfire,
                        }),
                        new_accuracy_x100: m.accuracy_x100,
                        timestamp_ms: now_ms,
                    },
                )
                &&& (old(ctx).leaderboard_repo.write_strategy is WriteThrough ==> spec_delivered(
                    old(ctx).leaderboard_topic,
                    final(ctx).leaderboard_topic,
                    LeaderboardUpdateEventModel {
                        convoy_id: c,
                        drone_id: d,
                        callsign: m.callsign,
                        new_rank: (match spec_cold_rank(final(ctx).store.cold.rows@, c, d) {
                            Some(k) => if k <= 100 {
                                k as u32
                            } else {
                                0u32
                            },
                            None => 0u32,
                        }),
                        old_rank: None,
                        accuracy_x100: m.accuracy_x100,
                        change_type: RankChangeType::ScoreUpdate,
                        timestamp_ms: now_ms,
                    },
                ))
                &&& spec_ranking_update_delivered(
                    old(ctx).leaderboard_topic,
                    final(ctx).leaderboard_topic,
                    c,
                    d,
                    m.callsign,
                    m.accuracy_x100,
                    now_ms,
                )
                &&& final(ctx).drone_status_topic == old(ctx).drone_status_topic
                &&& final(ctx).alert_topic == old(ctx).alert_topic
                &&& final(ctx).telemetry_topic == old(ctx).telemetry_topic
            })),
    {
        let result = match self.record_engagement(ctx, input, now_ms) {
            Ok(res) => res,
            Err(e) => {
                return Err(e);
            },
        };
        proof {
            let c = spec_uuid_value(input.convoy_id@) as u128;
            let d = spec_uuid_value(input.drone_id@) as u128;
            assert(spec_prev_stats(old(ctx).store.cold.rows@, c, d).total_engagements
                < u64::MAX);
            assert(result.entry@.convoy_id == c);
            assert(result.entry@.drone_id == d);
        }
        let engagement = Engagement {
            engagement_id,
            convoy_id: result.entry.convoy_id,
            drone_id: result.entry.drone_id,
            drone_callsign: result.entry.callsign.clone(),
            engaged_at_ms: now_ms,
            weapon_type: (match input.weapon_type {
                Some(w) => w,
                None => WeaponType::Agm114Hellfire,
            }),
            target_type: input.target_type,
            target_coordinates,
            shooter_position,
            range_m,
            hit: input.hit,
            damage_assessment: if input.hit {
                DamageAssessment::PendingBda
            } else {
                DamageAssessment::Missed
            },
            authorization_code: String::from_str(authorization_code),
            roe_compliant,
            bda_notes: None,
        };
        match ctx.engagement_repo.record(&mut ctx.store, &engagement) {
            Ok(_) => {},
            Err(e) => {
                return Err(ApiError::Persistence(e));
            },
        }
        Ok(engagement)
    }

    /// Update an engagement's battle damage assessment in both mirrors.
    /// A malformed id is rejected with `InvalidUuid`; an unknown id with
    /// `NotFound`.
    pub fn update_bda(&self, ctx: &mut ApiContext, input: &UpdateBdaInput) -> (r: Result<
        Engagement,
        ApiError,
    >)
        requires
            old(ctx).wf(),
        ensures
            final(ctx).wf(),
            (!spec_uuid_valid(input.engagement_id@) ==> (r matches Err(e) && e is InvalidUuid
                && *final(ctx) == *old(ctx))),
            (spec_uuid_valid(input.engagement_id@) ==> ({
                let id = spec_uuid_value(input.engagement_id@) as u128;
                &&& (crate::repos::spec_find_engagement(old(ctx).store.cold.engagements@, id)
                    is None ==> (r matches Err(e) && e is NotFound && *final(ctx) == *old(ctx)))
                &&& (crate::repos::spec_find_engagement(
                    old(ctx).store.cold.engagements@,
                    id,
                ) matches Some(i) ==> (r matches Ok(e) && e@ == old(
                    ctx,
                ).store.cold.engagements@[i].spec_with_bda(
                    input.damage_assessment,
                    (match input.notes {
                        Some(ref n) => Some(n@),
                        None => None,
                    }),
                )))
            })),
    {
        let eid = match parse_uuid(input.engagement_id.as_str()) {
            Some(v) => v,
            None => {
                return Err(ApiError::InvalidUuid(input.engagement_id.clone()));
            },
        };
        let notes = match &input.notes {
            Some(n) => Some(n.clone()),
            None => None,
        };
        match ctx.engagement_repo.update_bda(
            &mut ctx.store,
            eid,
            input.damage_assessment,
            notes,
        ) {
            Ok(e) => Ok(e),
            Err(pe) => {
                match pe {
                    PersistenceError::NotFound { entity_type, key } => Err(
                        ApiError::NotFound { entity_type, id: key },
                    ),
                    other => Err(ApiError::Persistence(other)),
                }
            },
        }
    }

    /// Rebuild a convoy's hot ranking projection from the cold rows.
    pub fn rebuild_leaderboard(&self, ctx: &mut ApiContext, convoy_id: &str, now_ms: u64) -> (r:
        Result<RebuildLeaderboardResult, ApiError>)
        requires
            old(ctx).wf(),
        ensures
            final(ctx).wf(),
            final(ctx).store.cold == old(ctx).store.cold,
            (!spec_uuid_valid(convoy_id@) ==> (r matches Err(e) && e is InvalidUuid)),
            (spec_uuid_valid(convoy_id@) ==> r is Ok),
            (r matches Ok(res) ==> (res.success && res.entries_processed == min(
                100,
                crate::repository::spec_convoy_rows(
                    old(ctx).store.cold.rows@,
                    spec_uuid_value(convoy_id@) as u128,
                ).len() as int,
            ))),
            (spec_uuid_valid(convoy_id@) && old(ctx).store.hot.available ==> (match spec_lookup(
                final(ctx).store.hot.leaderboards@,
                spec_uuid_value(convoy_id@) as u128,
            ) {
                Some(q) => crate::repository::spec_cold_page(
                    old(ctx).store.cold.rows@,
                    spec_uuid_value(convoy_id@) as u128,
                    100,
                    q@,
                ),
                None => false,
            })),
            (spec_uuid_valid(convoy_id@) && !old(ctx).store.hot.available
                ==> final(ctx).store.hot == old(ctx).store.hot),
    {
        let cid = match parse_uuid(convoy_id) {
            Some(v) => v,
            None => {
                return Err(ApiError::InvalidUuid(String::from_str(convoy_id)));
            },
        };
        let start = crate::timefmt::current_time_millis();
        let n = match ctx.leaderboard_repo.rebuild(&mut ctx.store, cid) {
            Ok(n) => n,
            Err(e) => {
                return Err(ApiError::Persistence(e));
            },
        };
        let end = crate::timefmt::current_time_millis();
        let duration_ms = if end >= start {
            end - start
        } else {
            0
        };
        proof {
            assert(n <= 100);
        }
        Ok(
            RebuildLeaderboardResult {
                success: true,
                entries_processed: n as u64,
                duration_ms,
            },
        )
    }

    /// Update an asset's position, fuel, and status, and fan out a status
    /// change event when the status changed.
    pub fn update_drone_state(
        &self,
        ctx: &mut ApiContext,
        convoy_id: &str,
        drone_id: &str,
        position: crate::domain::Coordinates,
        fuel_pct: u32,
        status: DroneStatus,
        now_ms: u64,
    ) -> (r: Result<Drone, ApiError>)
        requires
            old(ctx).wf(),
        ensures
            final(ctx).wf(),
            ((!spec_uuid_valid(convoy_id@) || !spec_uuid_valid(drone_id@)) ==> (r matches Err(e)
                && e is InvalidUuid && *final(ctx) == *old(ctx))),
            (spec_uuid_valid(convoy_id@) && spec_uuid_valid(drone_id@) ==> ({
                let c = spec_uuid_value(convoy_id@) as u128;
                let d = spec_uuid_value(drone_id@) as u128;
                &&& (spec_lookup2(old(ctx).store.cold.drones@, (c, d)) is None ==> (r matches Err(
                    e,
                ) && e is NotFound && *final(ctx) == *old(ctx)))
                &&& (spec_lookup2(old(ctx).store.cold.drones@, (c, d)) matches Some(dr) ==> (
                r matches Ok(out) && ({
                    &&& out@ == crate::entities::DroneModel {
                        current_position: position,
                        fuel_pct: fuel_pct,
                        status: status,
                        updated_at_ms: now_ms,
                        ..dr@
                    }
                    &&& (spec_lookup2(final(ctx).store.cold.drones@, (c, d)) matches Some(d2)
                        && d2@ == out@)
                    &&& (dr.status != status ==> spec_delivered(
                        old(ctx).drone_status_topic,
                        final(ctx).drone_status_topic,
                        crate::broker::DroneStatusEventModel {
                            convoy_id: c,
                            drone_id: d,
                            callsign: dr@.callsign,
                            old_status: dr.status,
                            new_status: status,
                            timestamp_ms: now_ms,
                        },
                    ))
                    &&& (dr.status == status ==> final(ctx).drone_status_topic == old(
                        ctx,
                    ).drone_status_topic)
                })))
            })),
    {
        let cid = match parse_uuid(convoy_id) {
            Some(v) => v,
            None => {
                return Err(ApiError::InvalidUuid(String::from_str(convoy_id)));
            },
        };
        let did = match parse_uuid(drone_id) {
            Some(v) => v,
            None => {
                return Err(ApiError::InvalidUuid(String::from_str(drone_id)));
            },
        };
        let old_status: DroneStatus = match ctx.drone_repo.get(&ctx.store, cid, did) {
            Some(dr) => dr.status,
            None => {
                return Err(
                    ApiError::NotFound {
                        entity_type: String::from_str("drone"),
                        id: String::from_str(drone_id),
                    },
                );
            },
        };
        let updated = match ctx.drone_repo.update_state(
            &mut ctx.store,
            cid,
            did,
            position,
            fuel_pct,
            status,
            now_ms,
        ) {
            Ok(d) => d,
            Err(e) => {
                return Err(ApiError::Persistence(e));
            },
        };
        if old_status != status {
            let event = DroneStatusEvent {
                convoy_id: cid,
                drone_id: did,
                callsign: updated.callsign.clone(),
                old_status,
                new_status: status,
                timestamp_ms: now_ms,
            };
            ctx.drone_status_topic.publish(&event);
        }
        Ok(updated)
    }

    /// Record a telemetry snapshot: append it to the cold tier, refresh
    /// the hot-tier latest snapshot, and fan it out on the telemetry
    /// topic.
    pub fn record_telemetry(&self, ctx: &mut ApiContext, snapshot: &Telemetry) -> (r: Result<
        (),
        ApiError,
    >)
        requires
            old(ctx).wf(),
        ensures
            final(ctx).wf(),
            r is Ok,
            final(ctx).store.cold.telemetry@.len() == old(ctx).store.cold.telemetry@.len() + 1,
            final(ctx).store.cold.telemetry@.last()@ == snapshot@,
            spec_delivered(old(ctx).telemetry_topic, final(ctx).telemetry_topic, snapshot@),
    {
        match ctx.telemetry_repo.insert(&mut ctx.store, snapshot) {
            Ok(_) => {},
            Err(e) => {
                return Err(ApiError::Persistence(e));
            },
        }
        ctx.telemetry_topic.publish(snapshot);
        Ok(())
    }

    /// Create a convoy with a caller-supplied id, so a retried call stores
    /// the same convoy. The new convoy starts in PLANNING.
    pub fn create_convoy(&self, ctx: &mut ApiContext, convoy: &Convoy) -> (r: Result<(), ApiError>)
        requires
            old(ctx).wf(),
            convoy.status is Planning,
        ensures
            final(ctx).wf(),
            r is Ok,
            (spec_lookup(final(ctx).store.cold.convoys@, convoy.convoy_id) matches Some(c) && c@
                == convoy@),
            forall|k2: u128|
                k2 != convoy.convoy_id ==> spec_lookup(final(ctx).store.cold.convoys@, k2)
                    == spec_lookup(old(ctx).store.cold.convoys@, k2),
    {
        match ctx.convoy_repo.create(&mut ctx.store, convoy) {
            Ok(_) => Ok(()),
            Err(e) => Err(ApiError::Persistence(e)),
        }
    }

    /// Drive a convoy's status along the legal transition chain. A
    /// malformed id is rejected with `InvalidUuid`, an unknown convoy with
    /// `NotFound`, and an illegal transition with `InvalidInput`.
    pub fn update_convoy_status(&self, ctx: &mut ApiContext, input: &UpdateConvoyStatusInput) -> (r:
        Result<(), ApiError>)
        requires
            old(ctx).wf(),
        ensures
            final(ctx).wf(),
            (!spec_uuid_valid(input.convoy_id@) ==> (r matches Err(e) && e is InvalidUuid
                && *final(ctx) == *old(ctx))),
            (spec_uuid_valid(input.convoy_id@) ==> ({
                let c = spec_uuid_value(input.convoy_id@) as u128;
                &&& (spec_lookup(old(ctx).store.cold.convoys@, c) is None ==> (r matches Err(e)
                    && e is NotFound && *final(ctx) == *old(ctx)))
                &&& (spec_lookup(old(ctx).store.cold.convoys@, c) matches Some(cv) ==> ({
                    &&& (!cv.status.spec_can_transition_to(input.status) ==> (r matches Err(e)
                        && e is InvalidInput && *final(ctx) == *old(ctx)))
                    &&& (cv.status.spec_can_transition_to(input.status) ==> (r is Ok
                        && (spec_lookup(final(ctx).store.cold.convoys@, c) matches Some(c2)
                        && c2@ == crate::entities::ConvoyModel { status: input.status, ..cv@ })))
                }))
            })),
    {
        let cid = match parse_uuid(input.convoy_id.as_str()) {
            Some(v) => v,
            None => {
                return Err(ApiError::InvalidUuid(input.convoy_id.clone()));
            },
        };
        match ctx.convoy_repo.update_status(&mut ctx.store, cid, input.status) {
            Ok(_) => Ok(()),
            Err(pe) => {
                match pe {
                    PersistenceError::NotFound { entity_type, key } => Err(
                        ApiError::NotFound { entity_type, id: key },
                    ),
                    PersistenceError::InvalidQuery(msg) => Err(ApiError::InvalidInput(msg)),
                    other => Err(ApiError::Persistence(other)),
                }
            },
        }
    }

    /// Store a batch of waypoints with pairwise distinct (asset,
    /// sequence) keys: each ends up stored under its key, nothing else is
    /// touched, and the count stored is returned. Never fails.
    pub fn create_waypoints(&self, ctx: &mut ApiContext, waypoints: &Vec<Waypoint>) -> (r: Result<
        usize,
        ApiError,
    >)
        requires
            old(ctx).wf(),
            forall|p: int, q: int|
                0 <= p < q < waypoints@.len() ==> ((#[trigger] waypoints@[p]).drone_id,
                waypoints@[p].sequence_number as u128) != ((#[trigger] waypoints@[q]).drone_id,
                waypoints@[q].sequence_number as u128),
        ensures
            final(ctx).wf(),
            (r matches Ok(n) && n == waypoints@.len()),
            forall|i: int|
                0 <= i < waypoints@.len() ==> (spec_lookup2(
                    final(ctx).store.cold.waypoints@,
                    ((#[trigger] waypoints@[i]).drone_id, waypoints@[i].sequence_number as u128),
                ) matches Some(w) && w@ == waypoints@[i]@),
            forall|k2: (u128, u128)|
                !spec_batch_has_key(waypoints@, k2) ==> spec_lookup2(
                    final(ctx).store.cold.waypoints@,
                    k2,
                ) == spec_lookup2(old(ctx).store.cold.waypoints@, k2),
    {
        let mut i: usize = 0;
        while i < waypoints.len()
            invariant
                i <= waypoints@.len(),
                ctx.wf(),
                forall|p: int, q: int|
                    0 <= p < q < waypoints@.len() ==> ((#[trigger] waypoints@[p]).drone_id,
                    waypoints@[p].sequence_number as u128) != ((
                    #[trigger] waypoints@[q]).drone_id, waypoints@[q].sequence_number as u128),
                forall|j: int|
                    0 <= j < i ==> (spec_lookup2(
                        ctx.store.cold.waypoints@,
                        ((#[trigger] waypoints@[j]).drone_id,
                        waypoints@[j].sequence_number as u128),
                    ) matches Some(w) && w@ == waypoints@[j]@),
                forall|k2: (u128, u128)|
                    !spec_batch_has_key(waypoints@.subrange(0, i as int), k2) ==> spec_lookup2(
                        ctx.store.cold.waypoints@,
                        k2,
                    ) == spec_lookup2(old(ctx).store.cold.waypoints@, k2),
            decreases waypoints@.len() - i,
        {
            let ghost pre = waypoints@.subrange(0, i as int);
            let ghost post = waypoints@.subrange(0, i + 1);
            proof {
                assert(forall|j: int| 0 <= j < i ==> #[trigger] post[j] == waypoints@[j]);
                assert(post[i as int] == waypoints@[i as int]);
            }
            match ctx.waypoint_repo.create(&mut ctx.store, &waypoints[i]) {
                Ok(_) => {},
                Err(e) => {
                    return Err(ApiError::Persistence(e));
                },
            }
            proof {
                let ki = (waypoints@[i as int].drone_id,
                waypoints@[i as int].sequence_number as u128);
                assert forall|k2: (u128, u128)| !spec_batch_has_key(post, k2) implies spec_lookup2(
                    ctx.store.cold.waypoints@,
                    k2,
                ) == spec_lookup2(old(ctx).store.cold.waypoints@, k2) by {
                    assert(k2 != ki) by {
                        assert(post[i as int] == waypoints@[i as int]);
                    }
                    if spec_batch_has_key(pre, k2) {
                        let j = choose|j: int|
                            0 <= j < pre.len() && ((#[trigger] pre[j]).drone_id,
                            pre[j].sequence_number as u128) == k2;
                        assert(post[j] == pre[j]);
                        assert(spec_batch_has_key(post, k2));
                    }
                }
                assert forall|j: int| 0 <= j < i + 1 implies (spec_lookup2(
                    ctx.store.cold.waypoints@,
                    ((#[trigger] waypoints@[j]).drone_id, waypoints@[j].sequence_number as u128),
                ) matches Some(w) && w@ == waypoints@[j]@) by {
                    if j < i {
                        let kj = (waypoints@[j].drone_id, waypoints@[j].sequence_number as u128);
                        let ki2 = (waypoints@[i as int].drone_id,
                        waypoints@[i as int].sequence_number as u128);
                        assert(kj != ki2);
                    }
                }
            }
            i += 1;
        }
        proof {
            assert(waypoints@.subrange(0, waypoints@.len() as int) =~= waypoints@);
        }
        Ok(waypoints.len())
    }
}

/// Some waypoint of the batch carries the key.
pub open spec fn spec_batch_has_key(ws: Seq<Waypoint>, k: (u128, u128)) -> bool {
    exists|i: int|
        0 <= i < ws.len() && ((#[trigger] ws[i]).drone_id, ws[i].sequence_number as u128) == k
}

// =============================================================================
// SUBSCRIPTION ROOT
// =============================================================================

/// The subscription surface: registering subscribers on the topics,
/// draining and filtering what was delivered, and the heartbeat pacer.
/// The transport loop around these lives outside the library.
pub struct SubscriptionRoot;

impl SubscriptionRoot {
    pub fn new() -> (r: SubscriptionRoot) {
        SubscriptionRoot
    }

    /// Register a subscriber on the engagement topic.
    pub fn engagement_events(&self, ctx: &mut ApiContext) -> (id: usize)
        ensures
            final(ctx).engagement_topic.subscribers@.len() == old(
                ctx,
            ).engagement_topic.subscribers@.len() + 1,
            id == old(ctx).engagement_topic.subscribers@.len(),
            final(ctx).engagement_topic.subscribers@.last().live,
            final(ctx).engagement_topic.subscribers@.last().buffer@.len() == 0,
            forall|i: int|
                0 <= i < old(ctx).engagement_topic.subscribers@.len() ==> #[trigger] final(ctx).engagement_topic.subscribers@[i] == old(ctx).engagement_topic.subscribers@[i],
            final(ctx).store == old(ctx).store,
            final(ctx).leaderboard_topic == old(ctx).leaderboard_topic,
            final(ctx).drone_status_topic == old(ctx).drone_status_topic,
            final(ctx).alert_topic == old(ctx).alert_topic,
            final(ctx).telemetry_topic == old(ctx).telemetry_topic,
            final(ctx).leaderboard_repo == old(ctx).leaderboard_repo,
            final(ctx).heartbeat == old(ctx).heartbeat,
    {
        ctx.engagement_topic.subscribe()
    }

    /// Drain a subscriber's engagement events, keeping those of one
    /// convoy: exactly the delivered events with that convoy id, in
    /// delivery order; the buffer is emptied.
    pub fn poll_engagement_events(&self, ctx: &mut ApiContext, id: usize, convoy_id: u128) -> (r:
        Vec<EngagementEvent>)
        requires
            id < old(ctx).engagement_topic.subscribers@.len(),
        ensures
            event_views(r@) == crate::broker::spec_filter_engagements(
                event_views(old(ctx).engagement_topic.subscribers@[id as int].buffer@),
                convoy_id,
            ),
            final(ctx).engagement_topic.subscribers@[id as int].buffer@.len() == 0,
            final(ctx).engagement_topic.subscribers@[id as int].live == old(ctx).engagement_topic.subscribers@[id as int].live,
            forall|i: int|
                0 <= i < old(ctx).engagement_topic.subscribers@.len() && i != id ==> #[trigger] final(ctx).engagement_topic.subscribers@[i] == old(ctx).engagement_topic.subscribers@[i],
            final(ctx).engagement_topic.subscribers@.len() == old(ctx).engagement_topic.subscribers@.len(),
            final(ctx).store == old(ctx).store,
            final(ctx).leaderboard_topic == old(ctx).leaderboard_topic,
            final(ctx).drone_status_topic == old(ctx).drone_status_topic,
            final(ctx).alert_topic == old(ctx).alert_topic,
            final(ctx).telemetry_topic == old(ctx).telemetry_topic,
            final(ctx).leaderboard_repo == old(ctx).leaderboard_repo,
            final(ctx).heartbeat == old(ctx).heartbeat,
    {
        let buffer = ctx.engagement_topic.drain(id);
        filter_engagement_events(&buffer, convoy_id)
    }

    /// Drain a subscriber's engagement events across all convoys.
    pub fn poll_all_engagement_events(&self, ctx: &mut ApiContext, id: usize) -> (r: Vec<
        EngagementEvent,
    >)
        requires
            id < old(ctx).engagement_topic.subscribers@.len(),
        ensures
            r@ == old(ctx).engagement_topic.subscribers@[id as int].buffer@,
            final(ctx).engagement_topic.subscribers@[id as int].buffer@.len() == 0,
            final(ctx).engagement_topic.subscribers@[id as int].live == old(ctx).engagement_topic.subscribers@[id as int].live,
            forall|i: int|
                0 <= i < old(ctx).engagement_topic.subscribers@.len() && i != id ==> #[trigger] final(ctx).engagement_topic.subscribers@[i] == old(ctx).engagement_topic.subscribers@[i],
            final(ctx).engagement_topic.subscribers@.len() == old(ctx).engagement_topic.subscribers@.len(),
            final(ctx).store == old(ctx).store,
            final(ctx).leaderboard_topic == old(ctx).leaderboard_topic,
            final(ctx).drone_status_topic == old(ctx).drone_status_topic,
            final(ctx).alert_topic == old(ctx).alert_topic,
            final(ctx).telemetry_topic == old(ctx).telemetry_topic,
            final(ctx).leaderboard_repo == old(ctx).leaderboard_repo,
            final(ctx).heartbeat == old(ctx).heartbeat,
    {
        ctx.engagement_topic.drain(id)
    }

    /// Register a subscriber on the ranking-update topic.
    pub fn leaderboard_updates(&self, ctx: &mut ApiContext) -> (id: usize)
        ensures
            final(ctx).leaderboard_topic.subscribers@.len() == old(
                ctx,
            ).leaderboard_topic.subscribers@.len() + 1,
            id == old(ctx).leaderboard_topic.subscribers@.len(),
            final(ctx).leaderboard_topic.subscribers@.last().live,
            final(ctx).leaderboard_topic.subscribers@.last().buffer@.len() == 0,
            forall|i: int|
                0 <= i < old(ctx).leaderboard_topic.subscribers@.len() ==> #[trigger] final(ctx).leaderboard_topic.subscribers@[i] == old(ctx).leaderboard_topic.subscribers@[i],
            final(ctx).store == old(ctx).store,
            final(ctx).engagement_topic == old(ctx).engagement_topic,
            final(ctx).drone_status_topic == old(ctx).drone_status_topic,
            final(ctx).alert_topic == old(ctx).alert_topic,
            final(ctx).telemetry_topic == old(ctx).telemetry_topic,
            final(ctx).leaderboard_repo == old(ctx).leaderboard_repo,
            final(ctx).heartbeat == old(ctx).heartbeat,
    {
        ctx.leaderboard_topic.subscribe()
    }

    /// Drain a subscriber's ranking updates, keeping those of one convoy.
    pub fn poll_leaderboard_updates(&self, ctx: &mut ApiContext, id: usize, convoy_id: u128) -> (r:
        Vec<LeaderboardUpdateEvent>)
        requires
            id < old(ctx).leaderboard_topic.subscribers@.len(),
        ensures
            event_views(r@) == crate::broker::spec_filter_leaderboard_updates(
                event_views(old(ctx).leaderboard_topic.subscribers@[id as int].buffer@),
                convoy_id,
            ),
            final(ctx).leaderboard_topic.subscribers@[id as int].buffer@.len() == 0,
            final(ctx).leaderboard_topic.subscribers@[id as int].live == old(ctx).leaderboard_topic.subscribers@[id as int].live,
            forall|i: int|
                0 <= i < old(ctx).leaderboard_topic.subscribers@.len() && i != id ==> #[trigger] final(ctx).leaderboard_topic.subscribers@[i] == old(ctx).leaderboard_topic.subscribers@[i],
            final(ctx).leaderboard_topic.subscribers@.len() == old(ctx).leaderboard_topic.subscribers@.len(),
            final(ctx).store == old(ctx).store,
            final(ctx).engagement_topic == old(ctx).engagement_topic,
            final(ctx).drone_status_topic == old(ctx).drone_status_topic,
            final(ctx).alert_topic == old(ctx).alert_topic,
            final(ctx).telemetry_topic == old(ctx).telemetry_topic,
            final(ctx).leaderboard_repo == old(ctx).leaderboard_repo,
            final(ctx).heartbeat == old(ctx).heartbeat,
    {
        let buffer = ctx.leaderboard_topic.drain(id);
        filter_leaderboard_updates(&buffer, convoy_id)
    }

    /// Register a subscriber on the alert topic.
    pub fn alerts(&self, ctx: &mut ApiContext) -> (id: usize)
        ensures
            final(ctx).alert_topic.subscribers@.len() == old(
                ctx,
            ).alert_topic.subscribers@.len() + 1,
            id == old(ctx).alert_topic.subscribers@.len(),
            final(ctx).alert_topic.subscribers@.last().live,
            final(ctx).alert_topic.subscribers@.last().buffer@.len() == 0,
            forall|i: int|
                0 <= i < old(ctx).alert_topic.subscribers@.len() ==> #[trigger] final(ctx).alert_topic.subscribers@[i] == old(ctx).alert_topic.subscribers@[i],
            final(ctx).store == old(ctx).store,
            final(ctx).engagement_topic == old(ctx).engagement_topic,
            final(ctx).leaderboard_topic == old(ctx).leaderboard_topic,
            final(ctx).drone_status_topic == old(ctx).drone_status_topic,
            final(ctx).telemetry_topic == old(ctx).telemetry_topic,
            final(ctx).leaderboard_repo == old(ctx).leaderboard_repo,
            final(ctx).heartbeat == old(ctx).heartbeat,
    {
        ctx.alert_topic.subscribe()
    }

    /// Drain a subscriber's alerts, keeping those of one convoy at or
    /// above the minimum severity: no threshold passes all; INFO passes
    /// all; WARNING drops INFO; CRITICAL keeps only CRITICAL.
    pub fn poll_alerts(
        &self,
        ctx: &mut ApiContext,
        id: usize,
        convoy_id: u128,
        min_severity: Option<AlertSeverity>,
    ) -> (r: Vec<AlertEvent>)
        requires
            id < old(ctx).alert_topic.subscribers@.len(),
        ensures
            event_views(r@) == crate::broker::spec_filter_alerts(
                event_views(old(ctx).alert_topic.subscribers@[id as int].buffer@),
                convoy_id,
                min_severity,
            ),
            final(ctx).alert_topic.subscribers@[id as int].buffer@.len() == 0,
            final(ctx).alert_topic.subscribers@[id as int].live == old(ctx).alert_topic.subscribers@[id as int].live,
            forall|i: int|
                0 <= i < old(ctx).alert_topic.subscribers@.len() && i != id ==> #[trigger] final(ctx).alert_topic.subscribers@[i] == old(ctx).alert_topic.subscribers@[i],
            final(ctx).alert_topic.subscribers@.len() == old(ctx).alert_topic.subscribers@.len(),
            final(ctx).store == old(ctx).store,
            final(ctx).engagement_topic == old(ctx).engagement_topic,
            final(ctx).leaderboard_topic == old(ctx).leaderboard_topic,
            final(ctx).drone_status_topic == old(ctx).drone_status_topic,
            final(ctx).telemetry_topic == old(ctx).telemetry_topic,
            final(ctx).leaderboard_repo == old(ctx).leaderboard_repo,
            final(ctx).heartbeat == old(ctx).heartbeat,
    {
        let buffer = ctx.alert_topic.drain(id);
        filter_alert_events(&buffer, convoy_id, min_severity)
    }

    /// One tick of the keep-alive stream: emit exactly when a full second
    /// has passed since the last emission (or nothing was emitted yet).
    pub fn heartbeat_tick(&self, ctx: &mut ApiContext, now_ms: u64) -> (emit: bool)
        ensures
            emit == (match old(ctx).heartbeat.last_emit_ms {
                None => true,
                Some(t) => now_ms >= t + 1000,
            }),
            (emit ==> final(ctx).heartbeat.last_emit_ms == Some(now_ms)),
            (!emit ==> final(ctx).heartbeat == old(ctx).heartbeat),
            final(ctx).store == old(ctx).store,
            final(ctx).engagement_topic == old(ctx).engagement_topic,
            final(ctx).leaderboard_topic == old(ctx).leaderboard_topic,
            final(ctx).drone_status_topic == old(ctx).drone_status_topic,
            final(ctx).alert_topic == old(ctx).alert_topic,
            final(ctx).telemetry_topic == old(ctx).telemetry_topic,
            final(ctx).leaderboard_repo == old(ctx).leaderboard_repo,
    {
        ctx.heartbeat.on_tick(now_ms)
    }

    /// Cancel a subscription on the engagement topic: its stream closes
    /// and its buffer is released.
    pub fn close_engagement_events(&self, ctx: &mut ApiContext, id: usize)
        requires
            id < old(ctx).engagement_topic.subscribers@.len(),
        ensures
            !final(ctx).engagement_topic.subscribers@[id as int].live,
            final(ctx).engagement_topic.subscribers@[id as int].buffer@.len() == 0,
            forall|i: int|
                0 <= i < old(ctx).engagement_topic.subscribers@.len() && i != id ==> #[trigger] final(ctx).engagement_topic.subscribers@[i] == old(ctx).engagement_topic.subscribers@[i],
            final(ctx).engagement_topic.subscribers@.len() == old(ctx).engagement_topic.subscribers@.len(),
            final(ctx).store == old(ctx).store,
            final(ctx).leaderboard_topic == old(ctx).leaderboard_topic,
            final(ctx).drone_status_topic == old(ctx).drone_status_topic,
            final(ctx).alert_topic == old(ctx).alert_topic,
            final(ctx).telemetry_topic == old(ctx).telemetry_topic,
            final(ctx).leaderboard_repo == old(ctx).leaderboard_repo,
            final(ctx).heartbeat == old(ctx).heartbeat,
    {
        ctx.engagement_topic.close(id)
    }
}

} // verus!
