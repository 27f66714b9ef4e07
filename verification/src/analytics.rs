//! The analytics engine: an in-process columnar store of engagement
//! records with a fixed set of deterministic aggregations.
//!
//! Ingestion is idempotent on the engagement id. Every aggregation is
//! stated over one counting core: a selector picks records, and the counts
//! of selected records and selected hits are exact.

use vstd::prelude::*;
use crate::accuracy::{accuracy_x100_of, spec_accuracy_x100_of};
use crate::domain::{PlatformType, TargetType, WeaponType};
use crate::errors::AnalyticsError;

verus! {

broadcast use vstd::seq_lib::group_to_multiset_ensures;

pub struct EngagementRecordModel {
    pub engagement_id: u128,
    pub convoy_id: u128,
    pub drone_id: u128,
    pub callsign: Seq<char>,
    pub platform_type: PlatformType,
    pub hit: bool,
    pub weapon_type: WeaponType,
    pub target_type: Option<TargetType>,
    pub range_m: Option<u64>,
    pub altitude_m: Option<u64>,
    pub timestamp_ms: u64,
}

/// One engagement record as the analytics engine ingests it. Range and
/// altitude are in whole meters.
#[derive(Debug)]
pub struct EngagementRecord {
    pub engagement_id: u128,
    pub convoy_id: u128,
    pub drone_id: u128,
    pub callsign: String,
    pub platform_type: PlatformType,
    pub hit: bool,
    pub weapon_type: WeaponType,
    pub target_type: Option<TargetType>,
    pub range_m: Option<u64>,
    pub altitude_m: Option<u64>,
    pub timestamp_ms: u64,
}

impl View for EngagementRecord {
    type V = EngagementRecordModel;

    open spec fn view(&self) -> EngagementRecordModel {
        EngagementRecordModel {
            engagement_id: self.engagement_id,
            convoy_id: self.convoy_id,
            drone_id: self.drone_id,
            callsign: self.callsign@,
            platform_type: self.platform_type,
            hit: self.hit,
            weapon_type: self.weapon_type,
            target_type: self.target_type,
            range_m: self.range_m,
            altitude_m: self.altitude_m,
            timestamp_ms: self.timestamp_ms,
        }
    }
}

impl EngagementRecord {
    pub fn duplicate(&self) -> (r: EngagementRecord)
        ensures
            r@ == self@,
    {
        EngagementRecord {
            engagement_id: self.engagement_id,
            convoy_id: self.convoy_id,
            drone_id: self.drone_id,
            callsign: self.callsign.clone(),
            platform_type: self.platform_type,
            hit: self.hit,
            weapon_type: self.weapon_type,
            target_type: self.target_type,
            range_m: self.range_m,
            altitude_m: self.altitude_m,
            timestamp_ms: self.timestamp_ms,
        }
    }
}

// =============================================================================
// SELECTORS AND THE COUNTING CORE
// =============================================================================

/// Which records an aggregation selects. Bands carry their lower bound
/// (inclusive) and upper bound (exclusive), in meters; `None` for an
/// unbounded side.
#[derive(Clone, Copy, PartialEq, Eq, Structural, Debug)]
pub enum RecordFilter {
    All,
    ByConvoy(u128),
    ByDrone(u128),
    ByWeapon(Option<u128>, WeaponType),
    ByPlatform(PlatformType),
    ByHourOfDay(u32),
    ByAltitudeBand(Option<u64>, Option<u64>),
    ByRangeBand(Option<u64>, Option<u64>),
    ByDroneDay(u128, u64),
    ByDroneHour(u128, u64),
    ByDay(u64),
    ByDayInWindow(u64, u64, u64),
    ByConvoyDrone(u128, u128),
}

/// Whether a record matches a selector.
pub open spec fn spec_matches(f: RecordFilter, m: EngagementRecordModel) -> bool {
    match f {
        RecordFilter::All => true,
        RecordFilter::ByConvoy(c) => m.convoy_id == c,
        RecordFilter::ByDrone(d) => m.drone_id == d,
        RecordFilter::ByWeapon(c, w) => m.weapon_type == w && (match c {
            Some(cid) => m.convoy_id == cid,
            None => true,
        }),
        RecordFilter::ByPlatform(p) => m.platform_type == p,
        RecordFilter::ByHourOfDay(h) => (m.timestamp_ms as int / 3_600_000) % 24 == h,
        RecordFilter::ByAltitudeBand(lo, hi) => match m.altitude_m {
            Some(a) => (match lo {
                Some(l) => a >= l,
                None => true,
            }) && (match hi {
                Some(u) => a < u,
                None => true,
            }),
            None => false,
        },
        RecordFilter::ByRangeBand(lo, hi) => match m.range_m {
            Some(a) => (match lo {
                Some(l) => a >= l,
                None => true,
            }) && (match hi {
                Some(u) => a < u,
                None => true,
            }),
            None => false,
        },
        RecordFilter::ByDroneDay(d, day) => m.drone_id == d && m.timestamp_ms as int / 86_400_000
            == day as int,
        RecordFilter::ByDroneHour(d, hr) => m.drone_id == d && m.timestamp_ms as int / 3_600_000
            == hr as int,
        RecordFilter::ByDay(day) => m.timestamp_ms as int / 86_400_000 == day as int,
        RecordFilter::ByDayInWindow(day, start, end) => m.timestamp_ms as int / 86_400_000
            == day as int && start <= m.timestamp_ms <= end,
        RecordFilter::ByConvoyDrone(c, d) => m.convoy_id == c && m.drone_id == d,
    }
}

/// How many records a selector picks.
pub open spec fn spec_count(s: Seq<EngagementRecord>, f: RecordFilter) -> nat
    decreases s.len(),
{
    if s.len() == 0 {
        0
    } else {
        spec_count(s.drop_last(), f) + (if spec_matches(f, s.last()@) {
            1nat
        } else {
            0nat
        })
    }
}

/// How many hits a selector picks.
pub open spec fn spec_count_hits(s: Seq<EngagementRecord>, f: RecordFilter) -> nat
    decreases s.len(),
{
    if s.len() == 0 {
        0
    } else {
        spec_count_hits(s.drop_last(), f) + (if spec_matches(f, s.last()@) && s.last().hit {
            1nat
        } else {
            0nat
        })
    }
}

/// The sum of the known ranges a selector picks, and how many records
/// carry one.
pub open spec fn spec_range_sum(s: Seq<EngagementRecord>, f: RecordFilter) -> int
    decreases s.len(),
{
    if s.len() == 0 {
        0
    } else {
        spec_range_sum(s.drop_last(), f) + (if spec_matches(f, s.last()@) {
            match s.last().range_m {
                Some(r) => r as int,
                None => 0,
            }
        } else {
            0
        })
    }
}

pub open spec fn spec_range_count(s: Seq<EngagementRecord>, f: RecordFilter) -> nat
    decreases s.len(),
{
    if s.len() == 0 {
        0
    } else {
        spec_range_count(s.drop_last(), f) + (if spec_matches(f, s.last()@)
            && s.last().range_m is Some {
            1nat
        } else {
            0nat
        })
    }
}

proof fn lemma_counts_le_len(s: Seq<EngagementRecord>, f: RecordFilter)
    ensures
        spec_count_hits(s, f) <= spec_count(s, f) <= s.len(),
        spec_range_count(s, f) <= s.len(),
        0 <= spec_range_sum(s, f) <= spec_range_count(s, f) * (u64::MAX as int),
    decreases s.len(),
{
    if s.len() > 0 {
        lemma_counts_le_len(s.drop_last(), f);
        let c0 = spec_range_count(s.drop_last(), f);
        let c1 = spec_range_count(s, f);
        assert(c0 * (u64::MAX as int) <= c1 * (u64::MAX as int)) by (nonlinear_arith)
            requires
                c0 <= c1,
        ;
    }
}

/// Exec match test.
fn matches(f: &RecordFilter, e: &EngagementRecord) -> (r: bool)
    ensures
        r == spec_matches(*f, e@),
{
    match f {
        RecordFilter::All => true,
        RecordFilter::ByConvoy(c) => e.convoy_id == *c,
        RecordFilter::ByDrone(d) => e.drone_id == *d,
        RecordFilter::ByWeapon(c, w) => e.weapon_type == *w && (match c {
            Some(cid) => e.convoy_id == *cid,
            None => true,
        }),
        RecordFilter::ByPlatform(p) => e.platform_type == *p,
        RecordFilter::ByHourOfDay(h) => (e.timestamp_ms / 3_600_000) % 24 == *h as u64,
        RecordFilter::ByAltitudeBand(lo, hi) => match e.altitude_m {
            Some(a) => (match lo {
                Some(l) => a >= *l,
                None => true,
            }) && (match hi {
                Some(u) => a < *u,
                None => true,
            }),
            None => false,
        },
        RecordFilter::ByRangeBand(lo, hi) => match e.range_m {
            Some(a) => (match lo {
                Some(l) => a >= *l,
                None => true,
            }) && (match hi {
                Some(u) => a < *u,
                None => true,
            }),
            None => false,
        },
        RecordFilter::ByDroneDay(d, day) => e.drone_id == *d && e.timestamp_ms / 86_400_000
            == *day,
        RecordFilter::ByDroneHour(d, hr) => e.drone_id == *d && e.timestamp_ms / 3_600_000 == *hr,
        RecordFilter::ByDay(day) => e.timestamp_ms / 86_400_000 == *day,
        RecordFilter::ByDayInWindow(day, start, end) => e.timestamp_ms / 86_400_000 == *day
            && *start <= e.timestamp_ms && e.timestamp_ms <= *end,
        RecordFilter::ByConvoyDrone(c, d) => e.convoy_id == *c && e.drone_id == *d,
    }
}

/// Count the selected records and the selected hits.
fn count_matching(v: &Vec<EngagementRecord>, f: &RecordFilter) -> (r: (u64, u64))
    requires
        v@.len() <= u64::MAX,
    ensures
        r.0 == spec_count(v@, *f),
        r.1 == spec_count_hits(v@, *f),
{
    let mut total: u64 = 0;
    let mut hits: u64 = 0;
    let mut i: usize = 0;
    while i < v.len()
        invariant
            i <= v@.len(),
            v@.len() <= u64::MAX,
            total == spec_count(v@.subrange(0, i as int), *f),
            hits == spec_count_hits(v@.subrange(0, i as int), *f),
        decreases v@.len() - i,
    {
        let ghost pre = v@.subrange(0, i as int);
        let ghost post = v@.subrange(0, i + 1);
        proof {
            assert(post.drop_last() =~= pre);
            assert(post.last() == v@[i as int]);
            lemma_counts_le_len(pre, *f);
        }
        if matches(f, &v[i]) {
            total = total + 1;
            if v[i].hit {
                hits = hits + 1;
            }
        }
        i += 1;
    }
    proof {
        assert(v@.subrange(0, v@.len() as int) =~= v@);
    }
    (total, hits)
}

/// Sum the known ranges of the selected records; the count of records
/// carrying a range comes along.
fn sum_ranges(v: &Vec<EngagementRecord>, f: &RecordFilter) -> (r: (u128, u64))
    requires
        v@.len() <= u64::MAX,
    ensures
        r.0 == spec_range_sum(v@, *f),
        r.1 == spec_range_count(v@, *f),
{
    let mut sum: u128 = 0;
    let mut cnt: u64 = 0;
    let mut i: usize = 0;
    while i < v.len()
        invariant
            i <= v@.len(),
            v@.len() <= u64::MAX,
            sum == spec_range_sum(v@.subrange(0, i as int), *f),
            cnt == spec_range_count(v@.subrange(0, i as int), *f),
        decreases v@.len() - i,
    {
        let ghost pre = v@.subrange(0, i as int);
        let ghost post = v@.subrange(0, i + 1);
        proof {
            assert(post.drop_last() =~= pre);
            assert(post.last() == v@[i as int]);
            lemma_counts_le_len(pre, *f);
            lemma_counts_le_len(post, *f);
            assert(spec_range_count(post, *f) * (u64::MAX as int) <= (u64::MAX as int) * (
            u64::MAX as int)) by (nonlinear_arith)
                requires
                    spec_range_count(post, *f) <= u64::MAX,
            ;
        }
        if matches(f, &v[i]) {
            match v[i].range_m {
                Some(rm) => {
                    sum = sum + (rm as u128);
                    cnt = cnt + 1;
                },
                None => {},
            }
        }
        i += 1;
    }
    proof {
        assert(v@.subrange(0, v@.len() as int) =~= v@);
    }
    (sum, cnt)
}

/// The distinct asset ids among the selected records, in first-seen order.
pub open spec fn spec_has_matching_drone(
    s: Seq<EngagementRecord>,
    f: RecordFilter,
    d: u128,
) -> bool {
    exists|i: int|
        0 <= i < s.len() && spec_matches(f, (#[trigger] s[i])@) && s[i].drone_id == d
}

/// The number of distinct asset ids among the selected records.
pub open spec fn spec_distinct_drone_count(s: Seq<EngagementRecord>, f: RecordFilter) -> nat
    decreases s.len(),
{
    if s.len() == 0 {
        0
    } else {
        spec_distinct_drone_count(s.drop_last(), f) + (if spec_matches(f, s.last()@)
            && !spec_has_matching_drone(s.drop_last(), f, s.last().drone_id) {
            1nat
        } else {
            0nat
        })
    }
}

/// Collect the distinct asset ids among the selected records: each listed
/// once, and listed exactly when some selected record carries it.
fn distinct_drones(v: &Vec<EngagementRecord>, f: &RecordFilter) -> (r: Vec<u128>)
    ensures
        forall|p: int, q: int| 0 <= p < q < r@.len() ==> r@[p] != r@[q],
        forall|d: u128| r@.contains(d) <==> spec_has_matching_drone(v@, *f, d),
        r@.len() == spec_distinct_drone_count(v@, *f),
{
    let mut r: Vec<u128> = Vec::new();
    let mut i: usize = 0;
    while i < v.len()
        invariant
            i <= v@.len(),
            forall|p: int, q: int| 0 <= p < q < r@.len() ==> r@[p] != r@[q],
            forall|d: u128|
                r@.contains(d) <==> spec_has_matching_drone(v@.subrange(0, i as int), *f, d),
            r@.len() == spec_distinct_drone_count(v@.subrange(0, i as int), *f),
        decreases v@.len() - i,
    {
        let ghost pre = v@.subrange(0, i as int);
        let ghost post = v@.subrange(0, i + 1);
        proof {
            assert(forall|k: int| 0 <= k < i ==> #[trigger] post[k] == pre[k]);
            assert(post[i as int] == v@[i as int]);
            assert(post.drop_last() =~= pre);
            assert(post.last() == v@[i as int]);
        }
        if matches(f, &v[i]) {
            let d = v[i].drone_id;
            let mut seen = false;
            let mut j: usize = 0;
            while j < r.len()
                invariant
                    j <= r@.len(),
                    seen == r@.subrange(0, j as int).contains(d),
                decreases r@.len() - j,
            {
                if r[j] == d {
                    seen = true;
                    proof {
                        assert(r@.subrange(0, j + 1)[j as int] == d);
                    }
                } else {
                    proof {
                        assert(r@.subrange(0, j + 1) =~= r@.subrange(0, j as int).push(
                            r@[j as int],
                        ));
                    }
                }
                j += 1;
            }
            proof {
                assert(r@.subrange(0, r@.len() as int) =~= r@);
            }
            if !seen {
                let ghost r0 = r@;
                r.push(d);
                proof {
                    assert forall|d2: u128| r@.contains(d2) <==> spec_has_matching_drone(
                        post,
                        *f,
                        d2,
                    ) by {
                        if d2 == d {
                            assert(r@[r@.len() - 1] == d);
                            assert(spec_matches(*f, post[i as int]@) && post[i as int].drone_id
                                == d);
                        } else {
                            assert(r@.contains(d2) <==> r0.contains(d2)) by {
                                if r0.contains(d2) {
                                    let k = choose|k: int|
                                        0 <= k < r0.len() && #[trigger] r0[k] == d2;
                                    assert(r@[k] == d2);
                                } else if r@.contains(d2) {
                                    let k = choose|k: int|
                                        0 <= k < r@.len() && #[trigger] r@[k] == d2;
                                    assert(k < r0.len());
                                    assert(r0[k] == d2);
                                }
                            }
                            assert(spec_has_matching_drone(post, *f, d2)
                                <==> spec_has_matching_drone(pre, *f, d2)) by {
                                if spec_has_matching_drone(post, *f, d2) {
                                    let k = choose|k: int|
                                        0 <= k < post.len() && spec_matches(
                                            *f,
                                            (#[trigger] post[k])@,
                                        ) && post[k].drone_id == d2;
                                    assert(k < pre.len());
                                    assert(pre[k] == post[k]);
                                }
                                if spec_has_matching_drone(pre, *f, d2) {
                                    let k = choose|k: int|
                                        0 <= k < pre.len() && spec_matches(
                                            *f,
                                            (#[trigger] pre[k])@,
                                        ) && pre[k].drone_id == d2;
                                    assert(post[k] == pre[k]);
                                }
                            }
                        }
                    }
                }
            } else {
                proof {
                    assert forall|d2: u128| r@.contains(d2) <==> spec_has_matching_drone(
                        post,
                        *f,
                        d2,
                    ) by {
                        if spec_has_matching_drone(post, *f, d2) && !spec_has_matching_drone(
                            pre,
                            *f,
                            d2,
                        ) {
                            let k = choose|k: int|
                                0 <= k < post.len() && spec_matches(*f, (#[trigger] post[k])@)
                                    && post[k].drone_id == d2;
                            if k < pre.len() {
                                assert(pre[k] == post[k]);
                            } else {
                                assert(d2 == d);
                            }
                        }
                        if spec_has_matching_drone(pre, *f, d2) {
                            let k = choose|k: int|
                                0 <= k < pre.len() && spec_matches(*f, (#[trigger] pre[k])@)
                                    && pre[k].drone_id == d2;
                            assert(post[k] == pre[k]);
                        }
                    }
                }
            }
        } else {
            proof {
                assert forall|d2: u128| r@.contains(d2) <==> spec_has_matching_drone(
                    post,
                    *f,
                    d2,
                ) by {
                    if spec_has_matching_drone(post, *f, d2) {
                        let k = choose|k: int|
                            0 <= k < post.len() && spec_matches(*f, (#[trigger] post[k])@)
                                && post[k].drone_id == d2;
                        assert(k < pre.len());
                        assert(pre[k] == post[k]);
                    }
                    if spec_has_matching_drone(pre, *f, d2) {
                        let k = choose|k: int|
                            0 <= k < pre.len() && spec_matches(*f, (#[trigger] pre[k])@)
                                && pre[k].drone_id == d2;
                        assert(post[k] == pre[k]);
                    }
                }
            }
        }
        i += 1;
    }
    proof {
        assert(v@.subrange(0, v@.len() as int) =~= v@);
    }
    r
}

// =============================================================================
// THE ENGINE
// =============================================================================

/// The in-memory analytics engine over ingested engagement records.
pub struct AnalyticsEngine {
    pub engagements: Vec<EngagementRecord>,
}

/// Some stored record carries the id.
pub open spec fn spec_has_engagement_id(s: Seq<EngagementRecord>, id: u128) -> bool {
    exists|i: int| 0 <= i < s.len() && (#[trigger] s[i]).engagement_id == id
}

impl AnalyticsEngine {
    /// Stored engagement ids are unique.
    pub open spec fn wf(self) -> bool {
        forall|i: int, j: int|
            0 <= i < j < self.engagements@.len() ==> (#[trigger] self.engagements@[i]).engagement_id
                != (#[trigger] self.engagements@[j]).engagement_id
    }

    /// A fresh, empty, memory-backed engine. Always succeeds.
    pub fn new_in_memory() -> (r: Result<AnalyticsEngine, AnalyticsError>)
        ensures
            r matches Ok(e) && e.wf() && e.engagements@.len() == 0,
    {
        Ok(AnalyticsEngine { engagements: Vec::new() })
    }

    /// Ingest one record, idempotently in the engagement id: a record
    /// whose id is already stored is skipped and the store is unchanged;
    /// a new id is appended. Never fails.
    pub fn ingest_engagement(&mut self, record: &EngagementRecord) -> (r: Result<
        (),
        AnalyticsError,
    >)
        requires
            old(self).wf(),
        ensures
            final(self).wf(),
            r is Ok,
            (spec_has_engagement_id(old(self).engagements@, record.engagement_id) ==> *final(self)
                == *old(self)),
            (!spec_has_engagement_id(old(self).engagements@, record.engagement_id) ==> {
                &&& final(self).engagements@.len() == old(self).engagements@.len() + 1
                &&& final(self).engagements@.drop_last() == old(self).engagements@
                &&& final(self).engagements@.last()@ == record@
            }),
    {
        let mut i: usize = 0;
        while i < self.engagements.len()
            invariant
                i <= self.engagements@.len(),
                self.wf(),
                forall|j: int|
                    0 <= j < i ==> (#[trigger] self.engagements@[j]).engagement_id
                        != record.engagement_id,
        decreases self.engagements@.len() - i,
        {
            if self.engagements[i].engagement_id == record.engagement_id {
                return Ok(());
            }
            i += 1;
        }
        let ghost s0 = self.engagements@;
        self.engagements.push(record.duplicate());
        proof {
            assert(self.engagements@.drop_last() =~= s0);
            assert(self.engagements@.last().engagement_id == record.engagement_id);
            assert forall|p: int, q: int|
                0 <= p < q < self.engagements@.len() implies (
            #[trigger] self.engagements@[p]).engagement_id
                != (#[trigger] self.engagements@[q]).engagement_id by {
                if q == self.engagements@.len() - 1 {
                    assert(self.engagements@[p] == s0[p]);
                    assert(s0[p].engagement_id != record.engagement_id);
                } else {
                    assert(self.engagements@[p] == s0[p]);
                    assert(self.engagements@[q] == s0[q]);
                }
            }
        }
        Ok(())
    }

    /// Ingest a batch: the store ends exactly as if `ingest_engagement`
    /// had been called on each record in order (duplicates by id skipped);
    /// returns how many records were offered. Never fails.
    pub fn ingest_engagements_batch(&mut self, records: &Vec<EngagementRecord>) -> (r: Result<
        usize,
        AnalyticsError,
    >)
        requires
            old(self).wf(),
        ensures
            final(self).wf(),
            r matches Ok(n) && n == records@.len(),
            record_models(final(self).engagements@) == spec_ingest_fold(
                record_models(old(self).engagements@),
                record_models(records@),
            ),
    {
        let ghost s0 = record_models(old(self).engagements@);
        let ghost ms = record_models(records@);
        let mut i: usize = 0;
        while i < records.len()
            invariant
                i <= records@.len(),
                self.wf(),
                s0 == record_models(old(self).engagements@),
                ms == record_models(records@),
                record_models(self.engagements@) == spec_ingest_fold(s0, ms.take(i as int)),
            decreases records@.len() - i,
        {
            let ghost before = self.engagements@;
            let ghost pre = ms.take(i as int);
            let ghost post = ms.take(i + 1);
            proof {
                assert(post.drop_last() =~= pre);
                assert(post.last() == ms[i as int]);
                assert(ms[i as int] == records@[i as int]@);
                lemma_has_id_model(before, records@[i as int].engagement_id);
            }
            let res = self.ingest_engagement(&records[i]);
            proof {
                if spec_has_engagement_id(before, records@[i as int].engagement_id) {
                    assert(record_models(self.engagements@) == spec_ingest_fold(s0, post));
                } else {
                    assert(record_models(self.engagements@) =~= record_models(before).push(
                        records@[i as int]@,
                    ));
                    assert(record_models(self.engagements@) == spec_ingest_fold(s0, post));
                }
            }
            match res {
                Ok(_) => {},
                Err(e) => {
                    return Err(e);
                },
            }
            i += 1;
        }
        proof {
            assert(ms.take(ms.len() as int) =~= ms);
        }
        Ok(records.len())
    }
}

/// The models of a sequence of records.
pub open spec fn record_models(s: Seq<EngagementRecord>) -> Seq<EngagementRecordModel> {
    s.map_values(|e: EngagementRecord| e@)
}

/// Some model carries the id.
pub open spec fn spec_has_model_id(s: Seq<EngagementRecordModel>, id: u128) -> bool {
    exists|i: int| 0 <= i < s.len() && (#[trigger] s[i]).engagement_id == id
}

/// The store that results from ingesting the records in order, each
/// skipped when its id is already present.
pub open spec fn spec_ingest_fold(
    s: Seq<EngagementRecordModel>,
    rs: Seq<EngagementRecordModel>,
) -> Seq<EngagementRecordModel>
    decreases rs.len(),
{
    if rs.len() == 0 {
        s
    } else {
        let prev = spec_ingest_fold(s, rs.drop_last());
        if spec_has_model_id(prev, rs.last().engagement_id) {
            prev
        } else {
            prev.push(rs.last())
        }
    }
}

/// A stored record carries an id exactly when its model does.
proof fn lemma_has_id_model(s: Seq<EngagementRecord>, id: u128)
    ensures
        spec_has_engagement_id(s, id) <==> spec_has_model_id(record_models(s), id),
{
    if spec_has_engagement_id(s, id) {
        let i = choose|i: int| 0 <= i < s.len() && (#[trigger] s[i]).engagement_id == id;
        assert(record_models(s)[i].engagement_id == id);
    }
    if spec_has_model_id(record_models(s), id) {
        let i = choose|i: int|
            0 <= i < record_models(s).len() && (#[trigger] record_models(s)[i]).engagement_id
                == id;
        assert(s[i].engagement_id == id);
    }
}

// =============================================================================
// WEAPON EFFECTIVENESS
// =============================================================================

/// Effectiveness of one weapon kind: engagement count, hits, derived
/// accuracy in hundredths of a percent, and the rounded mean range in
/// meters over the records that carry one.
#[derive(Clone, Copy, PartialEq, Eq, Structural, Debug)]
pub struct WeaponStats {
    pub weapon_type: WeaponType,
    pub total_engagements: u64,
    pub hits: u64,
    pub accuracy_x100: u64,
    pub avg_range_m: Option<u64>,
}

/// The rounded (half up) mean of a sum over a count.
pub open spec fn spec_avg(sum: int, cnt: nat) -> int {
    sum / (cnt as int) + (if 2 * (sum % (cnt as int)) >= cnt {
        1int
    } else {
        0int
    })
}

/// Exact stats for one weapon kind over the selected records.
pub open spec fn spec_weapon_stats_ok(
    s: Seq<EngagementRecord>,
    convoy: Option<u128>,
    w: WeaponStats,
) -> bool {
    let f = RecordFilter::ByWeapon(convoy, w.weapon_type);
    &&& w.total_engagements == spec_count(s, f)
    &&& w.total_engagements > 0
    &&& w.hits == spec_count_hits(s, f)
    &&& w.accuracy_x100 == spec_accuracy_x100_of(spec_count(s, f), spec_count_hits(s, f))
    &&& w.avg_range_m == (if spec_range_count(s, f) > 0 {
        Some(spec_avg(spec_range_sum(s, f), spec_range_count(s, f)) as u64)
    } else {
        None::<u64>
    })
}

/// Strict order on weapon stats: accuracy descending, ties by weapon
/// index ascending.
pub open spec fn spec_ws_outranks(a: WeaponStats, b: WeaponStats) -> bool {
    ||| a.accuracy_x100 > b.accuracy_x100
    ||| (a.accuracy_x100 == b.accuracy_x100 && a.weapon_type.spec_index()
        < b.weapon_type.spec_index())
}

pub open spec fn spec_ws_sorted(s: Seq<WeaponStats>) -> bool {
    forall|i: int, j: int| 0 <= i < j < s.len() ==> !spec_ws_outranks(#[trigger] s[j], #[trigger] s[i])
}

fn ws_outranks(a: &WeaponStats, b: &WeaponStats) -> (r: bool)
    ensures
        r == spec_ws_outranks(*a, *b),
{
    if a.accuracy_x100 != b.accuracy_x100 {
        a.accuracy_x100 > b.accuracy_x100
    } else {
        a.weapon_type.index() < b.weapon_type.index()
    }
}

/// Sort weapon stats by accuracy descending, keeping the multiset.
fn sort_weapon_stats(v: Vec<WeaponStats>) -> (r: Vec<WeaponStats>)
    ensures
        r@.to_multiset() == v@.to_multiset(),
        r@.len() == v@.len(),
        spec_ws_sorted(r@),
{
    let ghost all = v@;
    let mut rest = v;
    let mut out: Vec<WeaponStats> = Vec::new();
    while rest.len() > 0
        invariant
            out@.to_multiset().add(rest@.to_multiset()) =~= all.to_multiset(),
            out@.len() + rest@.len() == all.len(),
            spec_ws_sorted(out@),
        decreases rest.len(),
    {
        let ghost rest0 = rest@;
        let x = rest.pop().unwrap();
        proof {
            assert(rest0 =~= rest@.push(x));
        }
        let mut j: usize = 0;
        while j < out.len() && !ws_outranks(&x, &out[j])
            invariant
                j <= out@.len(),
                forall|k: int| 0 <= k < j ==> !spec_ws_outranks(x, #[trigger] out@[k]),
            decreases out@.len() - j,
        {
            j += 1;
        }
        let ghost out0 = out@;
        out.insert(j, x);
        proof {
            crate::ranking::lemma_insert_multiset(out0, j as int, x);
            assert forall|p: int, q: int| 0 <= p < q < out@.len() implies !spec_ws_outranks(
                #[trigger] out@[q],
                #[trigger] out@[p],
            ) by {
                if p < j && q == j {
                } else if p == j && q > j {
                    assert(spec_ws_outranks(x, out0[j as int]));
                    assert(!spec_ws_outranks(out0[q - 1], out0[j as int]));
                } else if p < j && q > j {
                    assert(!spec_ws_outranks(out0[q - 1], out0[p]));
                } else if p > j && q > j {
                    assert(!spec_ws_outranks(out0[q - 1], out0[p - 1]));
                }
            }
        }
    }
    proof {
        assert(rest@.to_multiset() =~= vstd::multiset::Multiset::<WeaponStats>::empty());
        assert(out@.to_multiset() =~= all.to_multiset());
    }
    out
}

/// How many of the five weapon kinds the selected records use.
pub open spec fn spec_used_weapon_count(s: Seq<EngagementRecord>, convoy: Option<u128>) -> int {
    (if spec_count(s, RecordFilter::ByWeapon(convoy, WeaponType::Agm114Hellfire)) > 0 {
        1int
    } else {
        0int
    }) + (if spec_count(s, RecordFilter::ByWeapon(convoy, WeaponType::Gbu12Paveway)) > 0 {
        1int
    } else {
        0int
    }) + (if spec_count(s, RecordFilter::ByWeapon(convoy, WeaponType::Aim9xSidewinder)) > 0 {
        1int
    } else {
        0int
    }) + (if spec_count(s, RecordFilter::ByWeapon(convoy, WeaponType::Gbu38Jdam)) > 0 {
        1int
    } else {
        0int
    }) + (if spec_count(s, RecordFilter::ByWeapon(convoy, WeaponType::Agm176Griffin)) > 0 {
        1int
    } else {
        0int
    })
}

impl AnalyticsEngine {
    /// Weapon effectiveness, optionally within one convoy: one row per
    /// weapon kind in use, with exact counts, derived accuracy, and the
    /// rounded mean range; rows ordered by accuracy descending (ties by
    /// weapon index). A weapon kind appears exactly when some selected
    /// record uses it. Never fails.
    pub fn weapon_effectiveness(&self, convoy_id: Option<u128>) -> (r: Result<
        Vec<WeaponStats>,
        AnalyticsError,
    >)
        requires
            self.wf(),
            self.engagements@.len() <= u64::MAX,
        ensures
            (r matches Ok(ws) && ({
                let s = self.engagements@;
                &&& ws@.len() == spec_used_weapon_count(s, convoy_id)
                &&& spec_ws_sorted(ws@)
                &&& forall|k: int|
                    0 <= k < ws@.len() ==> spec_weapon_stats_ok(s, convoy_id, #[trigger] ws@[k])
                &&& forall|w: WeaponType|
                    #[trigger] spec_count(s, RecordFilter::ByWeapon(convoy_id, w)) > 0
                        <==> (exists|k: int| 0 <= k < ws@.len() && (#[trigger] ws@[k]).weapon_type == w)
            })),
    {
        let ghost s = self.engagements@;
        let mut out: Vec<WeaponStats> = Vec::new();
        let mut idx: usize = 0;
        while idx < 5
            invariant
                idx <= 5,
                self.wf(),
                s == self.engagements@,
                s.len() <= u64::MAX,
                out@.len() <= idx,
                forall|k: int|
                    0 <= k < out@.len() ==> spec_weapon_stats_ok(s, convoy_id, #[trigger] out@[k]),
                forall|k: int|
                    0 <= k < out@.len() ==> (#[trigger] out@[k]).weapon_type.spec_index() < idx,
                forall|w: WeaponType|
                    w.spec_index() < idx ==> (#[trigger] spec_count(
                        s,
                        RecordFilter::ByWeapon(convoy_id, w),
                    ) > 0 <==> (exists|k: int|
                        0 <= k < out@.len() && (#[trigger] out@[k]).weapon_type == w)),
                forall|p: int, q: int|
                    0 <= p < q < out@.len() ==> (#[trigger] out@[p]).weapon_type
                        != (#[trigger] out@[q]).weapon_type,
                out@.len() == spec_used_count_below(s, convoy_id, idx as int),
            decreases 5 - idx,
        {
            let w = WeaponType::from_index(idx);
            let f = RecordFilter::ByWeapon(convoy_id, w);
            let (total, hits) = count_matching(&self.engagements, &f);
            if total > 0 {
                proof {
                    lemma_counts_le_len(s, f);
                }
                let acc = accuracy_x100_of(total, hits);
                let (rsum, rcnt) = sum_ranges(&self.engagements, &f);
                let avg_range_m: Option<u64> = if rcnt > 0 {
                    proof {
                        lemma_counts_le_len(s, f);
                        lemma_avg_bounded(spec_range_sum(s, f), spec_range_count(s, f));
                    }
                    let q = rsum / (rcnt as u128);
                    let rem = rsum % (rcnt as u128);
                    let m = if 2 * rem >= rcnt as u128 {
                        q + 1
                    } else {
                        q
                    };
                    Some(m as u64)
                } else {
                    None
                };
                let ghost out0 = out@;
                out.push(
                    WeaponStats {
                        weapon_type: w,
                        total_engagements: total,
                        hits,
                        accuracy_x100: acc,
                        avg_range_m,
                    },
                );
                proof {
                    assert(spec_weapon_at(idx as int) == w) by {
                        lemma_weapon_index_injective(spec_weapon_at(idx as int), w);
                    }
                    assert forall|w2: WeaponType| w2.spec_index() < idx + 1 implies (
                    #[trigger] spec_count(
                        s,
                        RecordFilter::ByWeapon(convoy_id, w2),
                    ) > 0 <==> (exists|k: int|
                        0 <= k < out@.len() && (#[trigger] out@[k]).weapon_type == w2)) by {
                        if w2.spec_index() == idx {
                            lemma_weapon_index_injective(w2, w);
                            assert(out@[out@.len() - 1].weapon_type == w2);
                        } else {
                            if spec_count(s, RecordFilter::ByWeapon(convoy_id, w2)) > 0 {
                                let k = choose|k: int|
                                    0 <= k < out0.len() && (#[trigger] out0[k]).weapon_type == w2;
                                assert(out@[k].weapon_type == w2);
                            }
                            if exists|k: int|
                                0 <= k < out@.len() && (#[trigger] out@[k]).weapon_type == w2 {
                                let k = choose|k: int|
                                    0 <= k < out@.len() && (#[trigger] out@[k]).weapon_type == w2;
                                if k == out@.len() - 1 {
                                    lemma_weapon_index_injective(w2, w);
                                } else {
                                    assert(out0[k].weapon_type == w2);
                                }
                            }
                        }
                    }
                    lemma_used_count_step(s, convoy_id, idx as int);
                }
            } else {
                proof {
                    assert(spec_weapon_at(idx as int) == w) by {
                        lemma_weapon_index_injective(spec_weapon_at(idx as int), w);
                    }
                    assert forall|w2: WeaponType| w2.spec_index() < idx + 1 implies (
                    #[trigger] spec_count(
                        s,
                        RecordFilter::ByWeapon(convoy_id, w2),
                    ) > 0 <==> (exists|k: int|
                        0 <= k < out@.len() && (#[trigger] out@[k]).weapon_type == w2)) by {
                        if w2.spec_index() == idx {
                            lemma_weapon_index_injective(w2, w);
                            if exists|k: int|
                                0 <= k < out@.len() && (#[trigger] out@[k]).weapon_type == w2 {
                                let k = choose|k: int|
                                    0 <= k < out@.len() && (#[trigger] out@[k]).weapon_type == w2;
                                assert(out@[k].weapon_type.spec_index() < idx);
                            }
                        }
                    }
                    lemma_used_count_step(s, convoy_id, idx as int);
                }
            }
            idx += 1;
        }
        let ghost before_sort = out@;
        let sorted = sort_weapon_stats(out);
        proof {
            assert(spec_used_count_below(s, convoy_id, 5) == spec_used_weapon_count(s, convoy_id));
            assert forall|k: int| 0 <= k < sorted@.len() implies spec_weapon_stats_ok(
                s,
                convoy_id,
                #[trigger] sorted@[k],
            ) by {
                assert(before_sort.to_multiset().count(sorted@[k]) > 0);
                assert(before_sort.contains(sorted@[k]));
                let j = choose|j: int| 0 <= j < before_sort.len() && before_sort[j] == sorted@[k];
            }
            assert forall|w: WeaponType| #[trigger] spec_count(
                s,
                RecordFilter::ByWeapon(convoy_id, w),
            ) > 0 implies (exists|k: int|
                0 <= k < sorted@.len() && (#[trigger] sorted@[k]).weapon_type == w) by {
                assert(w.spec_index() < 5);
                let k = choose|k: int|
                    0 <= k < before_sort.len() && (#[trigger] before_sort[k]).weapon_type == w;
                assert(sorted@.to_multiset().count(before_sort[k]) > 0);
                assert(sorted@.contains(before_sort[k]));
                let k2 = choose|k2: int| 0 <= k2 < sorted@.len() && sorted@[k2] == before_sort[k];
            }
            assert forall|w: WeaponType| (exists|k: int|
                0 <= k < sorted@.len() && (#[trigger] sorted@[k]).weapon_type == w) implies
                #[trigger] spec_count(s, RecordFilter::ByWeapon(convoy_id, w)) > 0 by {
                let k = choose|k: int| 0 <= k < sorted@.len() && (#[trigger] sorted@[k]).weapon_type == w;
                assert(before_sort.to_multiset().count(sorted@[k]) > 0);
                assert(before_sort.contains(sorted@[k]));
                let j = choose|j: int| 0 <= j < before_sort.len() && before_sort[j] == sorted@[k];
            }
        }
        Ok(sorted)
    }
}

/// The weapon kinds in use whose index is below a bound.
pub open spec fn spec_used_count_below(
    s: Seq<EngagementRecord>,
    convoy: Option<u128>,
    bound: int,
) -> int {
    (if bound > 0 && spec_count(s, RecordFilter::ByWeapon(convoy, WeaponType::Agm114Hellfire))
        > 0 {
        1int
    } else {
        0int
    }) + (if bound > 1 && spec_count(s, RecordFilter::ByWeapon(convoy, WeaponType::Gbu12Paveway))
        > 0 {
        1int
    } else {
        0int
    }) + (if bound > 2 && spec_count(
        s,
        RecordFilter::ByWeapon(convoy, WeaponType::Aim9xSidewinder),
    ) > 0 {
        1int
    } else {
        0int
    }) + (if bound > 3 && spec_count(s, RecordFilter::ByWeapon(convoy, WeaponType::Gbu38Jdam))
        > 0 {
        1int
    } else {
        0int
    }) + (if bound > 4 && spec_count(s, RecordFilter::ByWeapon(convoy, WeaponType::Agm176Griffin))
        > 0 {
        1int
    } else {
        0int
    })
}

proof fn lemma_used_count_step(s: Seq<EngagementRecord>, convoy: Option<u128>, idx: int)
    requires
        0 <= idx < 5,
    ensures
        spec_used_count_below(s, convoy, idx + 1) == spec_used_count_below(s, convoy, idx) + (
        if spec_count(
            s,
            RecordFilter::ByWeapon(convoy, spec_weapon_at(idx)),
        ) > 0 {
            1int
        } else {
            0int
        }),
{
}

/// The weapon kind at a given index.
pub open spec fn spec_weapon_at(i: int) -> WeaponType {
    if i == 0 {
        WeaponType::Agm114Hellfire
    } else if i == 1 {
        WeaponType::Gbu12Paveway
    } else if i == 2 {
        WeaponType::Aim9xSidewinder
    } else if i == 3 {
        WeaponType::Gbu38Jdam
    } else {
        WeaponType::Agm176Griffin
    }
}

proof fn lemma_weapon_index_injective(a: WeaponType, b: WeaponType)
    requires
        a.spec_index() == b.spec_index(),
    ensures
        a == b,
{
}

/// The rounded mean of ranges stays within the integer range.
proof fn lemma_avg_bounded(sum: int, cnt: nat)
    requires
        cnt > 0,
        0 <= sum <= cnt * (u64::MAX as int),
    ensures
        0 <= sum / (cnt as int) <= u64::MAX,
        sum % (cnt as int) > 0 ==> sum / (cnt as int) < u64::MAX,
        0 <= spec_avg(sum, cnt) <= u64::MAX,
{
    assert(sum / (cnt as int) <= u64::MAX && (sum % (cnt as int) > 0 ==> sum / (cnt as int)
        < u64::MAX) && sum / (cnt as int) >= 0) by (nonlinear_arith)
        requires
            cnt > 0,
            0 <= sum <= cnt * (u64::MAX as int),
    ;
}

// =============================================================================
// TOP PERFORMERS
// =============================================================================

/// Per-asset performance: exact counts and derived accuracy over all
/// records of the asset.
#[derive(Debug)]
pub struct DronePerformance {
    pub drone_id: u128,
    pub callsign: String,
    pub platform_type: PlatformType,
    pub total_engagements: u64,
    pub hits: u64,
    pub accuracy_x100: u64,
}

impl DronePerformance {
    pub fn duplicate(&self) -> (r: DronePerformance)
        ensures
            r.drone_id == self.drone_id,
            r.callsign@ == self.callsign@,
            r.platform_type == self.platform_type,
            r.total_engagements == self.total_engagements,
            r.hits == self.hits,
            r.accuracy_x100 == self.accuracy_x100,
    {
        DronePerformance {
            drone_id: self.drone_id,
            callsign: self.callsign.clone(),
            platform_type: self.platform_type,
            total_engagements: self.total_engagements,
            hits: self.hits,
            accuracy_x100: self.accuracy_x100,
        }
    }
}

/// Exact per-asset stats, with the asset's identity fields taken from some
/// record of the asset, and the qualification floor of five engagements.
pub open spec fn spec_perf_ok(s: Seq<EngagementRecord>, p: DronePerformance) -> bool {
    let f = RecordFilter::ByDrone(p.drone_id);
    &&& p.total_engagements == spec_count(s, f)
    &&& p.total_engagements >= 5
    &&& p.hits == spec_count_hits(s, f)
    &&& p.accuracy_x100 == spec_accuracy_x100_of(spec_count(s, f), spec_count_hits(s, f))
    &&& exists|i: int|
        0 <= i < s.len() && (#[trigger] s[i]).drone_id == p.drone_id && s[i]@.callsign
            == p.callsign@ && s[i].platform_type == p.platform_type
}

/// Strict order on performances: accuracy descending, ties by asset id
/// ascending.
pub open spec fn spec_perf_outranks(a: DronePerformance, b: DronePerformance) -> bool {
    ||| a.accuracy_x100 > b.accuracy_x100
    ||| (a.accuracy_x100 == b.accuracy_x100 && a.drone_id < b.drone_id)
}

pub open spec fn spec_perf_sorted(s: Seq<DronePerformance>) -> bool {
    forall|i: int, j: int|
        0 <= i < j < s.len() ==> !spec_perf_outranks(#[trigger] s[j], #[trigger] s[i])
}

fn perf_outranks(a: &DronePerformance, b: &DronePerformance) -> (r: bool)
    ensures
        r == spec_perf_outranks(*a, *b),
{
    if a.accuracy_x100 != b.accuracy_x100 {
        a.accuracy_x100 > b.accuracy_x100
    } else {
        a.drone_id < b.drone_id
    }
}

/// Sort performances by accuracy descending, keeping the multiset.
fn sort_performances(v: Vec<DronePerformance>) -> (r: Vec<DronePerformance>)
    ensures
        r@.to_multiset() == v@.to_multiset(),
        r@.len() == v@.len(),
        spec_perf_sorted(r@),
{
    let ghost all = v@;
    let mut rest = v;
    let mut out: Vec<DronePerformance> = Vec::new();
    while rest.len() > 0
        invariant
            out@.to_multiset().add(rest@.to_multiset()) =~= all.to_multiset(),
            out@.len() + rest@.len() == all.len(),
            spec_perf_sorted(out@),
        decreases rest.len(),
    {
        let ghost rest0 = rest@;
        let x = rest.pop().unwrap();
        proof {
            assert(rest0 =~= rest@.push(x));
        }
        let mut j: usize = 0;
        while j < out.len() && !perf_outranks(&x, &out[j])
            invariant
                j <= out@.len(),
                forall|k: int| 0 <= k < j ==> !spec_perf_outranks(x, #[trigger] out@[k]),
            decreases out@.len() - j,
        {
            j += 1;
        }
        let ghost out0 = out@;
        out.insert(j, x);
        proof {
            crate::ranking::lemma_insert_multiset(out0, j as int, x);
            assert forall|p: int, q: int| 0 <= p < q < out@.len() implies !spec_perf_outranks(
                #[trigger] out@[q],
                #[trigger] out@[p],
            ) by {
                if p < j && q == j {
                } else if p == j && q > j {
                    assert(spec_perf_outranks(x, out0[j as int]));
                    assert(!spec_perf_outranks(out0[q - 1], out0[j as int]));
                } else if p < j && q > j {
                    assert(!spec_perf_outranks(out0[q - 1], out0[p]));
                } else if p > j && q > j {
                    assert(!spec_perf_outranks(out0[q - 1], out0[p - 1]));
                }
            }
        }
    }
    proof {
        assert(rest@.to_multiset() =~= vstd::multiset::Multiset::<DronePerformance>::empty());
        assert(out@.to_multiset() =~= all.to_multiset());
    }
    out
}

/// Find some record of an asset; the first one, scanning from the start.
fn find_drone_record(v: &Vec<EngagementRecord>, d: u128) -> (r: Option<usize>)
    ensures
        match r {
            Some(i) => i < v@.len() && v@[i as int].drone_id == d,
            None => !spec_has_matching_drone(v@, RecordFilter::All, d),
        },
{
    let mut i: usize = 0;
    while i < v.len()
        invariant
            i <= v@.len(),
            forall|j: int| 0 <= j < i ==> (#[trigger] v@[j]).drone_id != d,
        decreases v@.len() - i,
    {
        if v[i].drone_id == d {
            return Some(i);
        }
        i += 1;
    }
    None
}

impl AnalyticsEngine {
    /// The top-performing assets: every asset with at least five recorded
    /// engagements, its exact counts and derived accuracy, ordered by
    /// accuracy descending (ties by asset id), capped at `limit`. Each
    /// listed asset appears once; a qualifying asset is listed unless the
    /// page is full. Never fails.
    pub fn top_performers(&self, limit: usize) -> (r: Result<Vec<DronePerformance>, AnalyticsError>)
        requires
            self.wf(),
            self.engagements@.len() <= u64::MAX,
        ensures
            (r matches Ok(ps) && ({
                let s = self.engagements@;
                &&& ps@.len() <= limit
                &&& spec_perf_sorted(ps@)
                &&& forall|k: int| 0 <= k < ps@.len() ==> spec_perf_ok(s, #[trigger] ps@[k])
                &&& forall|p: int, q: int|
                    0 <= p < q < ps@.len() ==> (#[trigger] ps@[p]).drone_id
                        != (#[trigger] ps@[q]).drone_id
                &&& forall|d: u128|
                    #[trigger] spec_count(s, RecordFilter::ByDrone(d)) >= 5
                        && spec_has_matching_drone(s, RecordFilter::All, d) ==> ((exists|k: int|
                        0 <= k < ps@.len() && (#[trigger] ps@[k]).drone_id == d) || ps@.len()
                        == limit)
            })),
    {
        let ghost s = self.engagements@;
        let drones = distinct_drones(&self.engagements, &RecordFilter::All);
        let mut perfs: Vec<DronePerformance> = Vec::new();
        let mut i: usize = 0;
        while i < drones.len()
            invariant
                i <= drones@.len(),
                self.wf(),
                s == self.engagements@,
                s.len() <= u64::MAX,
                forall|p: int, q: int| 0 <= p < q < drones@.len() ==> drones@[p] != drones@[q],
                forall|d: u128| drones@.contains(d) <==> spec_has_matching_drone(
                    s,
                    RecordFilter::All,
                    d,
                ),
                forall|k: int| 0 <= k < perfs@.len() ==> spec_perf_ok(s, #[trigger] perfs@[k]),
                forall|p: int, q: int|
                    0 <= p < q < perfs@.len() ==> (#[trigger] perfs@[p]).drone_id
                        != (#[trigger] perfs@[q]).drone_id,
                forall|k: int|
                    0 <= k < perfs@.len() ==> (exists|j: int|
                        0 <= j < i && drones@[j] == (#[trigger] perfs@[k]).drone_id),
                forall|j: int|
                    0 <= j < i && #[trigger] spec_count(s, RecordFilter::ByDrone(drones@[j])) >= 5
                        ==> (exists|k: int|
                        0 <= k < perfs@.len() && (#[trigger] perfs@[k]).drone_id == drones@[j]),
            decreases drones@.len() - i,
        {
            let d = drones[i];
            let f = RecordFilter::ByDrone(d);
            let (total, hits) = count_matching(&self.engagements, &f);
            if total >= 5 {
                proof {
                    lemma_counts_le_len(s, f);
                    assert(drones@.contains(d)) by {
                        assert(drones@[i as int] == d);
                    }
                    assert(spec_has_matching_drone(s, RecordFilter::All, d));
                }
                let acc = accuracy_x100_of(total, hits);
                let ridx = match find_drone_record(&self.engagements, d) {
                    Some(ri) => ri,
                    None => {
                        proof {
                            let j = choose|j: int|
                                0 <= j < s.len() && spec_matches(
                                    RecordFilter::All,
                                    (#[trigger] s[j])@,
                                ) && s[j].drone_id == d;
                            assert(false);
                        }
                        0
                    },
                };
                let ghost perfs0 = perfs@;
                perfs.push(
                    DronePerformance {
                        drone_id: d,
                        callsign: self.engagements[ridx].callsign.clone(),
                        platform_type: self.engagements[ridx].platform_type,
                        total_engagements: total,
                        hits,
                        accuracy_x100: acc,
                    },
                );
                proof {
                    assert(spec_perf_ok(s, perfs@[perfs@.len() - 1])) by {
                        assert(s[ridx as int].drone_id == d);
                    }
                    assert forall|p: int, q: int|
                        0 <= p < q < perfs@.len() implies (#[trigger] perfs@[p]).drone_id
                        != (#[trigger] perfs@[q]).drone_id by {
                        if q == perfs@.len() - 1 {
                            let j = choose|j: int|
                                0 <= j < i && drones@[j] == (#[trigger] perfs@[p]).drone_id;
                            assert(drones@[j] != drones@[i as int]);
                        } else {
                            assert(perfs0[p].drone_id != perfs0[q].drone_id);
                        }
                    }
                    assert forall|j: int|
                        0 <= j < i + 1 && #[trigger] spec_count(
                            s,
                            RecordFilter::ByDrone(drones@[j]),
                        ) >= 5 implies (exists|k: int|
                        0 <= k < perfs@.len() && (#[trigger] perfs@[k]).drone_id == drones@[j]) by {
                        if j == i {
                            assert(perfs@[perfs@.len() - 1].drone_id == drones@[j]);
                        } else {
                            let k = choose|k: int|
                                0 <= k < perfs0.len() && (#[trigger] perfs0[k]).drone_id
                                    == drones@[j];
                            assert(perfs@[k].drone_id == drones@[j]);
                        }
                    }
                }
            } else {
                proof {
                    assert forall|j: int|
                        0 <= j < i + 1 && #[trigger] spec_count(
                            s,
                            RecordFilter::ByDrone(drones@[j]),
                        ) >= 5 implies (exists|k: int|
                        0 <= k < perfs@.len() && (#[trigger] perfs@[k]).drone_id == drones@[j]) by {
                        if j == i {
                            assert(spec_count(s, RecordFilter::ByDrone(d)) < 5);
                            assert(false);
                        }
                    }
                }
            }
            i += 1;
        }
        let ghost before_sort = perfs@;
        let mut sorted = sort_performances(perfs);
        let ghost full = sorted@;
        proof {
            assert forall|k: int| 0 <= k < full.len() implies spec_perf_ok(
                s,
                #[trigger] full[k],
            ) by {
                assert(before_sort.to_multiset().count(full[k]) > 0);
                assert(before_sort.contains(full[k]));
            }
            assert forall|p: int, q: int|
                0 <= p < q < full.len() implies (#[trigger] full[p]).drone_id
                != (#[trigger] full[q]).drone_id by {
                if full[p].drone_id == full[q].drone_id {
                    if full[p] == full[q] {
                        lemma_dup_count(full, p, q);
                        assert(before_sort.to_multiset().count(full[p]) >= 2);
                        lemma_count_two_indices(before_sort, full[p]);
                        let (a, b) = choose|a: int, b: int|
                            0 <= a < b < before_sort.len() && before_sort[a] == full[p]
                                && before_sort[b] == full[p];
                        assert(before_sort[a].drone_id != before_sort[b].drone_id);
                        assert(false);
                    } else {
                        assert(before_sort.contains(full[p]));
                        assert(before_sort.contains(full[q]));
                        let j1 = choose|j: int|
                            0 <= j < before_sort.len() && before_sort[j] == full[p];
                        let j2 = choose|j: int|
                            0 <= j < before_sort.len() && before_sort[j] == full[q];
                        assert(j1 != j2);
                        if j1 < j2 {
                            assert(before_sort[j1].drone_id != before_sort[j2].drone_id);
                        } else {
                            assert(before_sort[j2].drone_id != before_sort[j1].drone_id);
                        }
                        assert(false);
                    }
                }
            }
        }
        if sorted.len() > limit {
            sorted.truncate(limit);
            proof {
                assert(sorted@ =~= full.subrange(0, limit as int));
            }
        }
        proof {
            assert forall|d: u128|
                #[trigger] spec_count(s, RecordFilter::ByDrone(d)) >= 5 && spec_has_matching_drone(
                    s,
                    RecordFilter::All,
                    d,
                ) implies ((exists|k: int|
                0 <= k < sorted@.len() && (#[trigger] sorted@[k]).drone_id == d) || sorted@.len()
                == limit) by {
                assert(drones@.contains(d));
                let j = choose|j: int| 0 <= j < drones@.len() && drones@[j] == d;
                assert(exists|k: int|
                    0 <= k < before_sort.len() && (#[trigger] before_sort[k]).drone_id == d);
                let k = choose|k: int|
                    0 <= k < before_sort.len() && (#[trigger] before_sort[k]).drone_id == d;
                assert(full.to_multiset().count(before_sort[k]) > 0);
                assert(full.contains(before_sort[k]));
                let k2 = choose|k2: int| 0 <= k2 < full.len() && full[k2] == before_sort[k];
                if k2 < sorted@.len() {
                    assert(sorted@[k2].drone_id == d);
                } else {
                    assert(sorted@.len() == limit);
                }
            }
        }
        Ok(sorted)
    }
}

/// Two distinct indices holding the same value give it a count of at least
/// two.
proof fn lemma_dup_count<A>(s: Seq<A>, p: int, q: int)
    requires
        0 <= p < q < s.len(),
        s[p] == s[q],
    ensures
        s.to_multiset().count(s[p]) >= 2,
{
    let s1 = s.remove(q);
    assert(s.remove(q).to_multiset() =~= s.to_multiset().remove(s[q]));
    assert(s1[p] == s[p]);
    assert(s1.contains(s[p]));
    assert(s1.to_multiset().count(s[p]) > 0);
    assert(s.to_multiset().count(s[p]) == s1.to_multiset().count(s[p]) + 1);
}

/// A value counted at least twice stands at two distinct indices.
proof fn lemma_count_two_indices<A>(s: Seq<A>, x: A)
    requires
        s.to_multiset().count(x) >= 2,
    ensures
        exists|p: int, q: int| 0 <= p < q < s.len() && s[p] == x && s[q] == x,
{
    assert(s.contains(x)) by {
        assert(s.to_multiset().count(x) > 0);
    }
    let q = choose|q: int| 0 <= q < s.len() && s[q] == x;
    let s1 = s.remove(q);
    assert(s.remove(q).to_multiset() =~= s.to_multiset().remove(x));
    assert(s1.to_multiset().count(x) >= 1);
    assert(s1.contains(x)) by {
        assert(s1.to_multiset().count(x) > 0);
    }
    let p1 = choose|p: int| 0 <= p < s1.len() && s1[p] == x;
    if p1 < q {
        assert(s[p1] == s1[p1]);
        assert(0 <= p1 < q < s.len() && s[p1] == x && s[q] == x);
    } else {
        assert(s[p1 + 1] == s1[p1]);
        assert(0 <= q < p1 + 1 < s.len() && s[q] == x && s[p1 + 1] == x);
    }
}

// =============================================================================
// FIXED-BUCKET DISTRIBUTIONS
// =============================================================================

/// Engagement counts for one hour of day.
#[derive(Clone, Copy, PartialEq, Eq, Structural, Debug)]
pub struct HourlyStats {
    pub hour: u32,
    pub total_engagements: u64,
    pub hits: u64,
    pub accuracy_x100: u64,
}

/// Accuracy within one altitude or range band. Bounds are in meters,
/// lower inclusive, upper exclusive, `None` for an open side.
#[derive(Clone, Copy, PartialEq, Eq, Structural, Debug)]
pub struct BandAccuracy {
    pub lo_m: Option<u64>,
    pub hi_m: Option<u64>,
    pub total_engagements: u64,
    pub hits: u64,
    pub accuracy_x100: u64,
}

/// Per-platform comparison: distinct assets, engagement counts, derived
/// accuracy, and the mean engagements per asset in hundredths.
#[derive(Clone, Copy, PartialEq, Eq, Structural, Debug)]
pub struct PlatformComparison {
    pub platform_type: PlatformType,
    pub drone_count: u64,
    pub total_engagements: u64,
    pub hits: u64,
    pub accuracy_x100: u64,
    pub avg_engagements_x100: u128,
}

/// The altitude bands, in meters: below 3 km, 3 to 5, 5 to 7, above 7.
pub open spec fn spec_altitude_band(i: int) -> (Option<u64>, Option<u64>) {
    if i == 0 {
        (None, Some(3000u64))
    } else if i == 1 {
        (Some(3000u64), Some(5000u64))
    } else if i == 2 {
        (Some(5000u64), Some(7000u64))
    } else {
        (Some(7000u64), None)
    }
}

/// The range bands, in meters: below 2 km, 2 to 5, 5 to 10, above 10.
pub open spec fn spec_range_band(i: int) -> (Option<u64>, Option<u64>) {
    if i == 0 {
        (None, Some(2000u64))
    } else if i == 1 {
        (Some(2000u64), Some(5000u64))
    } else if i == 2 {
        (Some(5000u64), Some(10_000u64))
    } else {
        (Some(10_000u64), None)
    }
}

fn altitude_band_at(i: usize) -> (r: (Option<u64>, Option<u64>))
    requires
        i < 4,
    ensures
        r == spec_altitude_band(i as int),
{
    if i == 0 {
        (None, Some(3000))
    } else if i == 1 {
        (Some(3000), Some(5000))
    } else if i == 2 {
        (Some(5000), Some(7000))
    } else {
        (Some(7000), None)
    }
}

fn range_band_at(i: usize) -> (r: (Option<u64>, Option<u64>))
    requires
        i < 4,
    ensures
        r == spec_range_band(i as int),
{
    if i == 0 {
        (None, Some(2000))
    } else if i == 1 {
        (Some(2000), Some(5000))
    } else if i == 2 {
        (Some(5000), Some(10_000))
    } else {
        (Some(10_000), None)
    }
}

impl AnalyticsEngine {
    /// Engagement distribution over the 24 hours of the day: one row per
    /// hour with any engagement, exact counts, hours ascending. Never
    /// fails.
    pub fn hourly_distribution(&self) -> (r: Result<Vec<HourlyStats>, AnalyticsError>)
        requires
            self.wf(),
            self.engagements@.len() <= u64::MAX,
        ensures
            (r matches Ok(hs) && ({
                let s = self.engagements@;
                &&& forall|k: int|
                    0 <= k < hs@.len() ==> ({
                        let f = RecordFilter::ByHourOfDay((#[trigger] hs@[k]).hour);
                        &&& hs@[k].hour < 24
                        &&& hs@[k].total_engagements == spec_count(s, f)
                        &&& hs@[k].total_engagements > 0
                        &&& hs@[k].hits == spec_count_hits(s, f)
                        &&& hs@[k].accuracy_x100 == spec_accuracy_x100_of(
                            spec_count(s, f),
                            spec_count_hits(s, f),
                        )
                    })
                &&& forall|p: int, q: int| 0 <= p < q < hs@.len() ==> hs@[p].hour < hs@[q].hour
                &&& forall|h: u32|
                    h < 24 ==> (#[trigger] spec_count(s, RecordFilter::ByHourOfDay(h)) > 0
                        <==> (exists|k: int| 0 <= k < hs@.len() && (#[trigger] hs@[k]).hour == h))
            })),
    {
        let ghost s = self.engagements@;
        let mut out: Vec<HourlyStats> = Vec::new();
        let mut h: u32 = 0;
        while h < 24
            invariant
                h <= 24,
                self.wf(),
                s == self.engagements@,
                s.len() <= u64::MAX,
                forall|k: int|
                    0 <= k < out@.len() ==> ({
                        let f = RecordFilter::ByHourOfDay((#[trigger] out@[k]).hour);
                        &&& out@[k].hour < h
                        &&& out@[k].total_engagements == spec_count(s, f)
                        &&& out@[k].total_engagements > 0
                        &&& out@[k].hits == spec_count_hits(s, f)
                        &&& out@[k].accuracy_x100 == spec_accuracy_x100_of(
                            spec_count(s, f),
                            spec_count_hits(s, f),
                        )
                    }),
                forall|p: int, q: int| 0 <= p < q < out@.len() ==> out@[p].hour < out@[q].hour,
                forall|h2: u32|
                    h2 < h ==> (#[trigger] spec_count(s, RecordFilter::ByHourOfDay(h2)) > 0
                        <==> (exists|k: int|
                        0 <= k < out@.len() && (#[trigger] out@[k]).hour == h2)),
            decreases 24 - h,
        {
            let f = RecordFilter::ByHourOfDay(h);
            let (total, hits) = count_matching(&self.engagements, &f);
            let ghost out0 = out@;
            if total > 0 {
                proof {
                    lemma_counts_le_len(s, f);
                }
                let acc = accuracy_x100_of(total, hits);
                out.push(HourlyStats { hour: h, total_engagements: total, hits, accuracy_x100: acc });
            }
            proof {
                assert forall|h2: u32| h2 < h + 1 implies (#[trigger] spec_count(
                    s,
                    RecordFilter::ByHourOfDay(h2),
                ) > 0 <==> (exists|k: int|
                    0 <= k < out@.len() && (#[trigger] out@[k]).hour == h2)) by {
                    if h2 == h {
                        if total > 0 {
                            assert(out@[out@.len() - 1].hour == h2);
                        } else {
                            if exists|k: int|
                                0 <= k < out@.len() && (#[trigger] out@[k]).hour == h2 {
                                let k = choose|k: int|
                                    0 <= k < out@.len() && (#[trigger] out@[k]).hour == h2;
                                assert(out@[k].hour < h);
                            }
                        }
                    } else {
                        if spec_count(s, RecordFilter::ByHourOfDay(h2)) > 0 {
                            let k = choose|k: int|
                                0 <= k < out0.len() && (#[trigger] out0[k]).hour == h2;
                            assert(out@[k].hour == h2);
                        }
                        if exists|k: int| 0 <= k < out@.len() && (#[trigger] out@[k]).hour == h2 {
                            let k = choose|k: int|
                                0 <= k < out@.len() && (#[trigger] out@[k]).hour == h2;
                            if k < out0.len() {
                                assert(out0[k].hour == h2);
                            }
                        }
                    }
                }
            }
            h += 1;
        }
        Ok(out)
    }

    /// Accuracy by altitude band: one row per band with any engagement,
    /// exact counts, bands in ascending order. Never fails.
    pub fn accuracy_by_altitude(&self) -> (r: Result<Vec<BandAccuracy>, AnalyticsError>)
        requires
            self.wf(),
            self.engagements@.len() <= u64::MAX,
        ensures
            (r matches Ok(bs) && ({
                let s = self.engagements@;
                &&& bs@.len() <= 4
                &&& forall|k: int|
                    0 <= k < bs@.len() ==> ({
                        let f = RecordFilter::ByAltitudeBand(
                            (#[trigger] bs@[k]).lo_m,
                            bs@[k].hi_m,
                        );
                        &&& (exists|i: int|
                            0 <= i < 4 && spec_altitude_band(i) == (bs@[k].lo_m, bs@[k].hi_m))
                        &&& bs@[k].total_engagements == spec_count(s, f)
                        &&& bs@[k].total_engagements > 0
                        &&& bs@[k].hits == spec_count_hits(s, f)
                        &&& bs@[k].accuracy_x100 == spec_accuracy_x100_of(
                            spec_count(s, f),
                            spec_count_hits(s, f),
                        )
                    })
                &&& forall|i: int|
                    0 <= i < 4 ==> (spec_count(
                        s,
                        RecordFilter::ByAltitudeBand(
                            spec_altitude_band(i).0,
                            spec_altitude_band(i).1,
                        ),
                    ) > 0 <==> (exists|k: int|
                        0 <= k < bs@.len() && ((#[trigger] bs@[k]).lo_m, bs@[k].hi_m)
                            == spec_altitude_band(i)))
            })),
    {
        let ghost s = self.engagements@;
        let mut out: Vec<BandAccuracy> = Vec::new();
        let mut i: usize = 0;
        while i < 4
            invariant
                i <= 4,
                self.wf(),
                s == self.engagements@,
                s.len() <= u64::MAX,
                out@.len() <= i,
                forall|k: int|
                    0 <= k < out@.len() ==> ({
                        let f = RecordFilter::ByAltitudeBand(
                            (#[trigger] out@[k]).lo_m,
                            out@[k].hi_m,
                        );
                        &&& (exists|b: int|
                            0 <= b < i && spec_altitude_band(b) == (out@[k].lo_m, out@[k].hi_m))
                        &&& out@[k].total_engagements == spec_count(s, f)
                        &&& out@[k].total_engagements > 0
                        &&& out@[k].hits == spec_count_hits(s, f)
                        &&& out@[k].accuracy_x100 == spec_accuracy_x100_of(
                            spec_count(s, f),
                            spec_count_hits(s, f),
                        )
                    }),
                forall|b: int|
                    0 <= b < i ==> (spec_count(
                        s,
                        RecordFilter::ByAltitudeBand(
                            spec_altitude_band(b).0,
                            spec_altitude_band(b).1,
                        ),
                    ) > 0 <==> (exists|k: int|
                        0 <= k < out@.len() && ((#[trigger] out@[k]).lo_m, out@[k].hi_m)
                            == spec_altitude_band(b))),
                forall|p: int, q: int|
                    0 <= p < q < out@.len() ==> ((#[trigger] out@[p]).lo_m, out@[p].hi_m) != ((
                    #[trigger] out@[q]).lo_m, out@[q].hi_m),
            decreases 4 - i,
        {
            let (lo, hi) = altitude_band_at(i);
            let f = RecordFilter::ByAltitudeBand(lo, hi);
            let (total, hits) = count_matching(&self.engagements, &f);
            let ghost out0 = out@;
            if total > 0 {
                proof {
                    lemma_counts_le_len(s, f);
                }
                let acc = accuracy_x100_of(total, hits);
                out.push(
                    BandAccuracy {
                        lo_m: lo,
                        hi_m: hi,
                        total_engagements: total,
                        hits,
                        accuracy_x100: acc,
                    },
                );
            }
            proof {
                assert(spec_altitude_band(0) != spec_altitude_band(1));
                assert(spec_altitude_band(0) != spec_altitude_band(2));
                assert(spec_altitude_band(0) != spec_altitude_band(3));
                assert(spec_altitude_band(1) != spec_altitude_band(2));
                assert(spec_altitude_band(1) != spec_altitude_band(3));
                assert(spec_altitude_band(2) != spec_altitude_band(3));
                assert forall|b: int| 0 <= b < i + 1 implies (spec_count(
                    s,
                    RecordFilter::ByAltitudeBand(spec_altitude_band(b).0, spec_altitude_band(b).1),
                ) > 0 <==> (exists|k: int|
                    0 <= k < out@.len() && ((#[trigger] out@[k]).lo_m, out@[k].hi_m)
                        == spec_altitude_band(b))) by {
                    if b == i {
                        if total > 0 {
                            assert((out@[out@.len() - 1].lo_m, out@[out@.len() - 1].hi_m)
                                == spec_altitude_band(b));
                        } else {
                            if exists|k: int|
                                0 <= k < out@.len() && ((#[trigger] out@[k]).lo_m, out@[k].hi_m)
                                    == spec_altitude_band(b) {
                                let k = choose|k: int|
                                    0 <= k < out@.len() && ((#[trigger] out@[k]).lo_m,
                                    out@[k].hi_m) == spec_altitude_band(b);
                                let b0 = choose|b0: int|
                                    0 <= b0 < i && spec_altitude_band(b0) == (out@[k].lo_m,
                                    out@[k].hi_m);
                            }
                        }
                    } else {
                        if spec_count(
                            s,
                            RecordFilter::ByAltitudeBand(
                                spec_altitude_band(b).0,
                                spec_altitude_band(b).1,
                            ),
                        ) > 0 {
                            let k = choose|k: int|
                                0 <= k < out0.len() && ((#[trigger] out0[k]).lo_m, out0[k].hi_m)
                                    == spec_altitude_band(b);
                            assert((out@[k].lo_m, out@[k].hi_m) == spec_altitude_band(b));
                        }
                        if exists|k: int|
                            0 <= k < out@.len() && ((#[trigger] out@[k]).lo_m, out@[k].hi_m)
                                == spec_altitude_band(b) {
                            let k = choose|k: int|
                                0 <= k < out@.len() && ((#[trigger] out@[k]).lo_m, out@[k].hi_m)
                                    == spec_altitude_band(b);
                            if k < out0.len() {
                            } else {
                                assert((out@[k].lo_m, out@[k].hi_m) == (lo, hi));
                            }
                        }
                    }
                }
            }
            i += 1;
        }
        Ok(out)
    }

    /// Accuracy by range band: one row per band with any engagement, exact
    /// counts, bands in ascending order. Never fails.
    pub fn accuracy_by_range(&self) -> (r: Result<Vec<BandAccuracy>, AnalyticsError>)
        requires
            self.wf(),
            self.engagements@.len() <= u64::MAX,
        ensures
            (r matches Ok(bs) && ({
                let s = self.engagements@;
                &&& bs@.len() <= 4
                &&& forall|k: int|
                    0 <= k < bs@.len() ==> ({
                        let f = RecordFilter::ByRangeBand((#[trigger] bs@[k]).lo_m, bs@[k].hi_m);
                        &&& (exists|i: int|
                            0 <= i < 4 && spec_range_band(i) == (bs@[k].lo_m, bs@[k].hi_m))
                        &&& bs@[k].total_engagements == spec_count(s, f)
                        &&& bs@[k].total_engagements > 0
                        &&& bs@[k].hits == spec_count_hits(s, f)
                        &&& bs@[k].accuracy_x100 == spec_accuracy_x100_of(
                            spec_count(s, f),
                            spec_count_hits(s, f),
                        )
                    })
                &&& forall|i: int|
                    0 <= i < 4 ==> (spec_count(
                        s,
                        RecordFilter::ByRangeBand(spec_range_band(i).0, spec_range_band(i).1),
                    ) > 0 <==> (exists|k: int|
                        0 <= k < bs@.len() && ((#[trigger] bs@[k]).lo_m, bs@[k].hi_m)
                            == spec_range_band(i)))
            })),
    {
        let ghost s = self.engagements@;
        let mut out: Vec<BandAccuracy> = Vec::new();
        let mut i: usize = 0;
        while i < 4
            invariant
                i <= 4,
                self.wf(),
                s == self.engagements@,
                s.len() <= u64::MAX,
                out@.len() <= i,
                forall|k: int|
                    0 <= k < out@.len() ==> ({
                        let f = RecordFilter::ByRangeBand((#[trigger] out@[k]).lo_m, out@[k].hi_m);
                        &&& (exists|b: int|
                            0 <= b < i && spec_range_band(b) == (out@[k].lo_m, out@[k].hi_m))
                        &&& out@[k].total_engagements == spec_count(s, f)
                        &&& out@[k].total_engagements > 0
                        &&& out@[k].hits == spec_count_hits(s, f)
                        &&& out@[k].accuracy_x100 == spec_accuracy_x100_of(
                            spec_count(s, f),
                            spec_count_hits(s, f),
                        )
                    }),
                forall|b: int|
                    0 <= b < i ==> (spec_count(
                        s,
                        RecordFilter::ByRangeBand(spec_range_band(b).0, spec_range_band(b).1),
                    ) > 0 <==> (exists|k: int|
                        0 <= k < out@.len() && ((#[trigger] out@[k]).lo_m, out@[k].hi_m)
                            == spec_range_band(b))),
            decreases 4 - i,
        {
            let (lo, hi) = range_band_at(i);
            let f = RecordFilter::ByRangeBand(lo, hi);
            let (total, hits) = count_matching(&self.engagements, &f);
            let ghost out0 = out@;
            if total > 0 {
                proof {
                    lemma_counts_le_len(s, f);
                }
                let acc = accuracy_x100_of(total, hits);
                out.push(
                    BandAccuracy {
                        lo_m: lo,
                        hi_m: hi,
                        total_engagements: total,
                        hits,
                        accuracy_x100: acc,
                    },
                );
            }
            proof {
                assert(spec_range_band(0) != spec_range_band(1));
                assert(spec_range_band(0) != spec_range_band(2));
                assert(spec_range_band(0) != spec_range_band(3));
                assert(spec_range_band(1) != spec_range_band(2));
                assert(spec_range_band(1) != spec_range_band(3));
                assert(spec_range_band(2) != spec_range_band(3));
                assert forall|b: int| 0 <= b < i + 1 implies (spec_count(
                    s,
                    RecordFilter::ByRangeBand(spec_range_band(b).0, spec_range_band(b).1),
                ) > 0 <==> (exists|k: int|
                    0 <= k < out@.len() && ((#[trigger] out@[k]).lo_m, out@[k].hi_m)
                        == spec_range_band(b))) by {
                    if b == i {
                        if total > 0 {
                            assert((out@[out@.len() - 1].lo_m, out@[out@.len() - 1].hi_m)
                                == spec_range_band(b));
                        } else {
                            if exists|k: int|
                                0 <= k < out@.len() && ((#[trigger] out@[k]).lo_m, out@[k].hi_m)
                                    == spec_range_band(b) {
                                let k = choose|k: int|
                                    0 <= k < out@.len() && ((#[trigger] out@[k]).lo_m,
                                    out@[k].hi_m) == spec_range_band(b);
                                let b0 = choose|b0: int|
                                    0 <= b0 < i && spec_range_band(b0) == (out@[k].lo_m,
                                    out@[k].hi_m);
                            }
                        }
                    } else {
                        if spec_count(
                            s,
                            RecordFilter::ByRangeBand(spec_range_band(b).0, spec_range_band(b).1),
                        ) > 0 {
                            let k = choose|k: int|
                                0 <= k < out0.len() && ((#[trigger] out0[k]).lo_m, out0[k].hi_m)
                                    == spec_range_band(b);
                            assert((out@[k].lo_m, out@[k].hi_m) == spec_range_band(b));
                        }
                        if exists|k: int|
                            0 <= k < out@.len() && ((#[trigger] out@[k]).lo_m, out@[k].hi_m)
                                == spec_range_band(b) {
                            let k = choose|k: int|
                                0 <= k < out@.len() && ((#[trigger] out@[k]).lo_m, out@[k].hi_m)
                                    == spec_range_band(b);
                            if k < out0.len() {
                            } else {
                                assert((out@[k].lo_m, out@[k].hi_m) == (lo, hi));
                            }
                        }
                    }
                }
            }
            i += 1;
        }
        Ok(out)
    }

    /// Per-platform comparison: one row per platform with any engagement,
    /// exact counts and distinct-asset counts, platforms in index order.
    /// Never fails.
    pub fn platform_comparison(&self) -> (r: Result<Vec<PlatformComparison>, AnalyticsError>)
        requires
            self.wf(),
            self.engagements@.len() <= u64::MAX,
        ensures
            (r matches Ok(cs) && ({
                let s = self.engagements@;
                &&& cs@.len() <= 4
                &&& forall|k: int|
                    0 <= k < cs@.len() ==> ({
                        let f = RecordFilter::ByPlatform((#[trigger] cs@[k]).platform_type);
                        &&& cs@[k].total_engagements == spec_count(s, f)
                        &&& cs@[k].total_engagements > 0
                        &&& cs@[k].hits == spec_count_hits(s, f)
                        &&& cs@[k].accuracy_x100 == spec_accuracy_x100_of(
                            spec_count(s, f),
                            spec_count_hits(s, f),
                        )
                        &&& cs@[k].drone_count == spec_distinct_drone_count(s, f)
                        &&& cs@[k].drone_count > 0
                        &&& cs@[k].avg_engagements_x100 == spec_avg(
                            100 * spec_count(s, f) as int,
                            spec_distinct_drone_count(s, f),
                        )
                    })
                &&& forall|p: int, q: int|
                    0 <= p < q < cs@.len() ==> (#[trigger] cs@[p]).platform_type.spec_index()
                        < (#[trigger] cs@[q]).platform_type.spec_index()
                &&& forall|pt: PlatformType|
                    #[trigger] spec_count(s, RecordFilter::ByPlatform(pt)) > 0 <==> (exists|k: int|
                        0 <= k < cs@.len() && (#[trigger] cs@[k]).platform_type == pt)
            })),
    {
        let ghost s = self.engagements@;
        let mut out: Vec<PlatformComparison> = Vec::new();
        let mut i: usize = 0;
        while i < 4
            invariant
                i <= 4,
                self.wf(),
                s == self.engagements@,
                s.len() <= u64::MAX,
                out@.len() <= i,
                forall|k: int|
                    0 <= k < out@.len() ==> ({
                        let f = RecordFilter::ByPlatform((#[trigger] out@[k]).platform_type);
                        &&& out@[k].platform_type.spec_index() < i
                        &&& out@[k].total_engagements == spec_count(s, f)
                        &&& out@[k].total_engagements > 0
                        &&& out@[k].hits == spec_count_hits(s, f)
                        &&& out@[k].accuracy_x100 == spec_accuracy_x100_of(
                            spec_count(s, f),
                            spec_count_hits(s, f),
                        )
                        &&& out@[k].drone_count == spec_distinct_drone_count(s, f)
                        &&& out@[k].drone_count > 0
                        &&& out@[k].avg_engagements_x100 == spec_avg(
                            100 * spec_count(s, f) as int,
                            spec_distinct_drone_count(s, f),
                        )
                    }),
                forall|p: int, q: int|
                    0 <= p < q < out@.len() ==> (#[trigger] out@[p]).platform_type.spec_index()
                        < (#[trigger] out@[q]).platform_type.spec_index(),
                forall|pt: PlatformType|
                    pt.spec_index() < i ==> (#[trigger] spec_count(
                        s,
                        RecordFilter::ByPlatform(pt),
                    ) > 0 <==> (exists|k: int|
                        0 <= k < out@.len() && (#[trigger] out@[k]).platform_type == pt)),
            decreases 4 - i,
        {
            let pt = PlatformType::from_index(i);
            let f = RecordFilter::ByPlatform(pt);
            let (total, hits) = count_matching(&self.engagements, &f);
            let ghost out0 = out@;
            if total > 0 {
                proof {
                    lemma_counts_le_len(s, f);
                }
                let acc = accuracy_x100_of(total, hits);
                let drones = distinct_drones(&self.engagements, &f);
                let dc = drones.len();
                proof {
                    assert(spec_count(s, f) > 0);
                    lemma_count_implies_drone(s, f);
                    assert(drones@.len() > 0);
                    lemma_distinct_le_count(s, f);
                    lemma_avg100_bounded(spec_count(s, f), spec_distinct_drone_count(s, f));
                }
                let q100: u128 = (100u128 * (total as u128)) / (dc as u128);
                let rem100: u128 = (100u128 * (total as u128)) % (dc as u128);
                let avg: u128 = if 2 * rem100 >= dc as u128 {
                    q100 + 1
                } else {
                    q100
                };
                out.push(
                    PlatformComparison {
                        platform_type: pt,
                        drone_count: dc as u64,
                        total_engagements: total,
                        hits,
                        accuracy_x100: acc,
                        avg_engagements_x100: avg,
                    },
                );
            }
            proof {
                assert forall|pt2: PlatformType| pt2.spec_index() < i + 1 implies (
                #[trigger] spec_count(s, RecordFilter::ByPlatform(pt2)) > 0 <==> (exists|k: int|
                    0 <= k < out@.len() && (#[trigger] out@[k]).platform_type == pt2)) by {
                    if pt2.spec_index() == i {
                        lemma_platform_index_injective(pt2, pt);
                        if total > 0 {
                            assert(out@[out@.len() - 1].platform_type == pt2);
                        } else {
                            if exists|k: int|
                                0 <= k < out@.len() && (#[trigger] out@[k]).platform_type == pt2 {
                                let k = choose|k: int|
                                    0 <= k < out@.len() && (#[trigger] out@[k]).platform_type
                                        == pt2;
                                assert(out@[k].platform_type.spec_index() < i);
                            }
                        }
                    } else {
                        if spec_count(s, RecordFilter::ByPlatform(pt2)) > 0 {
                            let k = choose|k: int|
                                0 <= k < out0.len() && (#[trigger] out0[k]).platform_type == pt2;
                            assert(out@[k].platform_type == pt2);
                        }
                        if exists|k: int|
                            0 <= k < out@.len() && (#[trigger] out@[k]).platform_type == pt2 {
                            let k = choose|k: int|
                                0 <= k < out@.len() && (#[trigger] out@[k]).platform_type == pt2;
                            if k == out@.len() - 1 && total > 0 {
                                lemma_platform_index_injective(pt2, pt);
                            } else {
                                assert(out0[k].platform_type == pt2);
                            }
                        }
                    }
                }
            }
            i += 1;
        }
        Ok(out)
    }
}

proof fn lemma_platform_index_injective(a: PlatformType, b: PlatformType)
    requires
        a.spec_index() == b.spec_index(),
    ensures
        a == b,
{
}

/// A selected record exists when the selected count is positive, so some
/// asset id matches.
proof fn lemma_count_implies_drone(s: Seq<EngagementRecord>, f: RecordFilter)
    requires
        spec_count(s, f) > 0,
    ensures
        exists|d: u128| spec_has_matching_drone(s, f, d),
        spec_distinct_drone_count(s, f) > 0,
    decreases s.len(),
{
    if spec_matches(f, s.last()@) {
        assert(spec_has_matching_drone(s, f, s.last().drone_id)) by {
            assert(spec_matches(f, (s[s.len() - 1])@) && s[s.len() - 1].drone_id
                == s.last().drone_id);
        }
        if !spec_has_matching_drone(s.drop_last(), f, s.last().drone_id) {
        } else {
            lemma_drone_distinct_pos(s, f, s.last().drone_id);
        }
    } else {
        lemma_count_implies_drone(s.drop_last(), f);
        let d = choose|d: u128| spec_has_matching_drone(s.drop_last(), f, d);
        let j = choose|j: int|
            0 <= j < s.drop_last().len() && spec_matches(f, (#[trigger] s.drop_last()[j])@)
                && s.drop_last()[j].drone_id == d;
        assert(s[j] == s.drop_last()[j]);
        assert(spec_has_matching_drone(s, f, d));
    }
}

/// A matching asset keeps the distinct count positive.
proof fn lemma_drone_distinct_pos(s: Seq<EngagementRecord>, f: RecordFilter, d: u128)
    requires
        spec_has_matching_drone(s, f, d),
    ensures
        spec_distinct_drone_count(s, f) > 0,
    decreases s.len(),
{
    if spec_matches(f, s.last()@) && !spec_has_matching_drone(s.drop_last(), f, s.last().drone_id) {
    } else {
        let j = choose|j: int|
            0 <= j < s.len() && spec_matches(f, (#[trigger] s[j])@) && s[j].drone_id == d;
        if j == s.len() - 1 {
            assert(spec_has_matching_drone(s.drop_last(), f, s.last().drone_id));
            let j2 = choose|j2: int|
                0 <= j2 < s.drop_last().len() && spec_matches(
                    f,
                    (#[trigger] s.drop_last()[j2])@,
                ) && s.drop_last()[j2].drone_id == s.last().drone_id;
            lemma_drone_distinct_pos(s.drop_last(), f, s.last().drone_id);
        } else {
            assert(s.drop_last()[j] == s[j]);
            assert(spec_has_matching_drone(s.drop_last(), f, d));
            lemma_drone_distinct_pos(s.drop_last(), f, d);
        }
    }
}

/// Each distinct asset has at least one record, so the distinct count never
/// exceeds the record count.
proof fn lemma_distinct_le_count(s: Seq<EngagementRecord>, f: RecordFilter)
    ensures
        spec_distinct_drone_count(s, f) <= spec_count(s, f),
    decreases s.len(),
{
    if s.len() > 0 {
        lemma_distinct_le_count(s.drop_last(), f);
    }
}

/// The mean engagements per asset, in hundredths, stays within range.
proof fn lemma_avg100_bounded(total: nat, drones: nat)
    requires
        drones > 0,
        drones <= total,
        total <= u64::MAX,
    ensures
        0 <= spec_avg(100 * total as int, drones),
        spec_avg(100 * total as int, drones) <= (100 * total as int) / (drones as int) + 1,
        100 * total as int <= u128::MAX,
        (100 * total as int) / (drones as int) + 1 <= u128::MAX,
        (100 * total as int) / (drones as int) >= 0,
{
    assert((100 * total as int) / (drones as int) <= 100 * total as int) by (nonlinear_arith)
        requires
            drones > 0,
    ;
    assert(spec_avg(100 * total as int, drones) <= (100 * total as int) / (drones as int) + 1);
    assert((100 * total as int) / (drones as int) >= 0) by (nonlinear_arith)
        requires
            drones > 0,
            total >= 0,
    ;
}

// =============================================================================
// MISSION SUMMARY
// =============================================================================

/// The summary of one convoy's engagements.
#[derive(Debug)]
pub struct MissionSummary {
    pub convoy_id: u128,
    pub total_drones: u64,
    pub total_engagements: u64,
    pub total_hits: u64,
    pub accuracy_x100: u64,
    pub top_performer: Option<String>,
    pub most_used_weapon: Option<WeaponType>,
}

impl AnalyticsEngine {
    /// The mission summary for a convoy: `None` when no record of the
    /// convoy was ingested; otherwise exact totals, the distinct asset
    /// count, the derived accuracy, the callsign of an asset attaining the
    /// best per-asset accuracy within the convoy, and a weapon kind used
    /// at least as often as every other. Never fails.
    pub fn mission_summary(&self, convoy_id: u128) -> (r: Result<
        Option<MissionSummary>,
        AnalyticsError,
    >)
        requires
            self.wf(),
            self.engagements@.len() <= u64::MAX,
        ensures
            (r matches Ok(o) && ({
                let s = self.engagements@;
                let f = RecordFilter::ByConvoy(convoy_id);
                &&& (o is None <==> spec_count(s, f) == 0)
                &&& (o matches Some(ms) ==> ({
                    &&& ms.convoy_id == convoy_id
                    &&& ms.total_engagements == spec_count(s, f)
                    &&& ms.total_hits == spec_count_hits(s, f)
                    &&& ms.total_drones == spec_distinct_drone_count(s, f)
                    &&& ms.accuracy_x100 == spec_accuracy_x100_of(
                        spec_count(s, f),
                        spec_count_hits(s, f),
                    )
                    &&& (ms.top_performer matches Some(cs) && (exists|d: u128|
                        ({
                            &&& spec_has_matching_drone(s, f, d)
                            &&& (exists|i: int|
                                0 <= i < s.len() && (#[trigger] s[i]).drone_id == d
                                    && s[i].convoy_id == convoy_id && s[i]@.callsign == cs@)
                            &&& (forall|d2: u128|
                                spec_has_matching_drone(s, f, d2) ==> spec_accuracy_x100_of(
                                    #[trigger] spec_count(
                                        s,
                                        RecordFilter::ByConvoyDrone(convoy_id, d2),
                                    ),
                                    spec_count_hits(
                                        s,
                                        RecordFilter::ByConvoyDrone(convoy_id, d2),
                                    ),
                                ) <= spec_accuracy_x100_of(
                                    spec_count(s, RecordFilter::ByConvoyDrone(convoy_id, d)),
                                    spec_count_hits(s, RecordFilter::ByConvoyDrone(convoy_id, d)),
                                ))
                        })))
                    &&& (ms.most_used_weapon matches Some(w) && ({
                        &&& spec_count(s, RecordFilter::ByWeapon(Some(convoy_id), w)) > 0
                        &&& forall|w2: WeaponType|
                            #[trigger] spec_count(s, RecordFilter::ByWeapon(Some(convoy_id), w2))
                                <= spec_count(s, RecordFilter::ByWeapon(Some(convoy_id), w))
                    }))
                }))
            })),
    {
        let ghost s = self.engagements@;
        let f = RecordFilter::ByConvoy(convoy_id);
        let (total, hits) = count_matching(&self.engagements, &f);
        if total == 0 {
            return Ok(None);
        }
        proof {
            lemma_counts_le_len(s, f);
        }
        let acc = accuracy_x100_of(total, hits);
        let drones = distinct_drones(&self.engagements, &f);
        proof {
            lemma_count_implies_drone(s, f);
        }
        // Best per-asset accuracy within the convoy; the first asset found
        // keeps a tie.
        let mut best_idx: usize = 0;
        let mut best_acc: u64 = {
            let fd = RecordFilter::ByConvoyDrone(convoy_id, drones[0]);
            let (t0, h0) = count_matching(&self.engagements, &fd);
            proof {
                lemma_counts_le_len(s, fd);
            }
            accuracy_x100_of(t0, h0)
        };
        let mut i: usize = 1;
        while i < drones.len()
            invariant
                1 <= i <= drones@.len(),
                best_idx < i,
                s == self.engagements@,
                self.wf(),
                s.len() <= u64::MAX,
                best_acc == spec_accuracy_x100_of(
                    spec_count(s, RecordFilter::ByConvoyDrone(convoy_id, drones@[best_idx as int])),
                    spec_count_hits(
                        s,
                        RecordFilter::ByConvoyDrone(convoy_id, drones@[best_idx as int]),
                    ),
                ),
                forall|j: int|
                    0 <= j < i ==> spec_accuracy_x100_of(
                        #[trigger] spec_count(s, RecordFilter::ByConvoyDrone(convoy_id, drones@[j])),
                        spec_count_hits(s, RecordFilter::ByConvoyDrone(convoy_id, drones@[j])),
                    ) <= best_acc,
            decreases drones@.len() - i,
        {
            let fd = RecordFilter::ByConvoyDrone(convoy_id, drones[i]);
            let (ti, hi) = count_matching(&self.engagements, &fd);
            proof {
                lemma_counts_le_len(s, fd);
            }
            let ai = accuracy_x100_of(ti, hi);
            if ai > best_acc {
                best_acc = ai;
                best_idx = i;
            }
            i += 1;
        }
        let best_drone = drones[best_idx];
        let cs_idx = match find_drone_record_in_convoy(&self.engagements, convoy_id, best_drone) {
            Some(ci) => ci,
            None => {
                proof {
                    assert(drones@.contains(best_drone)) by {
                        assert(drones@[best_idx as int] == best_drone);
                    }
                    let j = choose|j: int|
                        0 <= j < s.len() && spec_matches(f, (#[trigger] s[j])@) && s[j].drone_id
                            == best_drone;
                    assert(false);
                }
                0
            },
        };
        let top_performer = Some(self.engagements[cs_idx].callsign.clone());
        // The most used weapon; the lowest index keeps a tie.
        let mut best_w: WeaponType = WeaponType::from_index(0);
        let mut best_wc: u64 = count_matching(
            &self.engagements,
            &RecordFilter::ByWeapon(Some(convoy_id), best_w),
        ).0;
        let mut wi: usize = 1;
        while wi < 5
            invariant
                1 <= wi <= 5,
                s == self.engagements@,
                self.wf(),
                s.len() <= u64::MAX,
                best_wc == spec_count(s, RecordFilter::ByWeapon(Some(convoy_id), best_w)),
                forall|w2: WeaponType|
                    w2.spec_index() < wi ==> #[trigger] spec_count(
                        s,
                        RecordFilter::ByWeapon(Some(convoy_id), w2),
                    ) <= best_wc,
            decreases 5 - wi,
        {
            let w = WeaponType::from_index(wi);
            let wc = count_matching(&self.engagements, &RecordFilter::ByWeapon(Some(convoy_id), w)).0;
            if wc > best_wc {
                best_wc = wc;
                best_w = w;
            }
            proof {
                assert forall|w2: WeaponType| w2.spec_index() < wi + 1 implies #[trigger] spec_count(
                    s,
                    RecordFilter::ByWeapon(Some(convoy_id), w2),
                ) <= best_wc by {
                    if w2.spec_index() == wi {
                        lemma_weapon_index_injective(w2, w);
                    }
                }
            }
            wi += 1;
        }
        proof {
            // Some weapon of the convoy is used: the total is positive, so
            // the most used weapon's count is positive.
            lemma_total_is_weapon_sum(s, convoy_id);
            assert forall|w2: WeaponType| #[trigger] spec_count(
                s,
                RecordFilter::ByWeapon(Some(convoy_id), w2),
            ) <= best_wc by {
                assert(w2.spec_index() < 5);
            }
            assert(best_wc > 0) by {
                assert(spec_count(s, RecordFilter::ByWeapon(Some(convoy_id), WeaponType::Agm114Hellfire)) <= best_wc);
                assert(spec_count(s, RecordFilter::ByWeapon(Some(convoy_id), WeaponType::Gbu12Paveway)) <= best_wc);
                assert(spec_count(s, RecordFilter::ByWeapon(Some(convoy_id), WeaponType::Aim9xSidewinder)) <= best_wc);
                assert(spec_count(s, RecordFilter::ByWeapon(Some(convoy_id), WeaponType::Gbu38Jdam)) <= best_wc);
                assert(spec_count(s, RecordFilter::ByWeapon(Some(convoy_id), WeaponType::Agm176Griffin)) <= best_wc);
            }
            assert(drones@.contains(drones@[best_idx as int]));
            assert(spec_has_matching_drone(s, f, best_drone));
            assert forall|d2: u128| spec_has_matching_drone(s, f, d2) implies spec_accuracy_x100_of(
                #[trigger] spec_count(s, RecordFilter::ByConvoyDrone(convoy_id, d2)),
                spec_count_hits(s, RecordFilter::ByConvoyDrone(convoy_id, d2)),
            ) <= best_acc by {
                assert(drones@.contains(d2));
                let j = choose|j: int| 0 <= j < drones@.len() && drones@[j] == d2;
            }
            assert(s[cs_idx as int].drone_id == best_drone && s[cs_idx as int].convoy_id
                == convoy_id);
        }
        Ok(
            Some(
                MissionSummary {
                    convoy_id,
                    total_drones: drones.len() as u64,
                    total_engagements: total,
                    total_hits: hits,
                    accuracy_x100: acc,
                    top_performer,
                    most_used_weapon: Some(best_w),
                },
            ),
        )
    }
}

/// Find the first record of an asset within a convoy.
fn find_drone_record_in_convoy(v: &Vec<EngagementRecord>, c: u128, d: u128) -> (r: Option<usize>)
    ensures
        match r {
            Some(i) => i < v@.len() && v@[i as int].drone_id == d && v@[i as int].convoy_id == c,
            None => !spec_has_matching_drone(v@, RecordFilter::ByConvoy(c), d),
        },
{
    let mut i: usize = 0;
    while i < v.len()
        invariant
            i <= v@.len(),
            forall|j: int|
                0 <= j < i ==> !((#[trigger] v@[j]).drone_id == d && v@[j].convoy_id == c),
        decreases v@.len() - i,
    {
        if v[i].drone_id == d && v[i].convoy_id == c {
            return Some(i);
        }
        i += 1;
    }
    None
}

/// A convoy's engagement count is the sum of its per-weapon counts, so a
/// positive total means some weapon count is positive.
proof fn lemma_total_is_weapon_sum(s: Seq<EngagementRecord>, c: u128)
    ensures
        spec_count(s, RecordFilter::ByConvoy(c)) == spec_count(
            s,
            RecordFilter::ByWeapon(Some(c), WeaponType::Agm114Hellfire),
        ) + spec_count(s, RecordFilter::ByWeapon(Some(c), WeaponType::Gbu12Paveway)) + spec_count(
            s,
            RecordFilter::ByWeapon(Some(c), WeaponType::Aim9xSidewinder),
        ) + spec_count(s, RecordFilter::ByWeapon(Some(c), WeaponType::Gbu38Jdam)) + spec_count(
            s,
            RecordFilter::ByWeapon(Some(c), WeaponType::Agm176Griffin),
        ),
    decreases s.len(),
{
    if s.len() > 0 {
        lemma_total_is_weapon_sum(s.drop_last(), c);
    }
}

// =============================================================================
// PERIOD-BUCKETED QUERIES
// =============================================================================

/// Engagement count for one day.
#[derive(Debug)]
pub struct DateCount {
    pub day_index: u64,
    pub label: String,
    pub count: u64,
}

/// Accuracy within one period of an asset's trend.
#[derive(Debug)]
pub struct AccuracyDataPoint {
    pub period_start_ms: u64,
    pub label: String,
    pub total_engagements: u64,
    pub hits: u64,
    pub accuracy_x100: u64,
}

/// The bucketing interval of an accuracy trend.
#[derive(Clone, Copy, PartialEq, Eq, Structural, Debug)]
pub enum TrendInterval {
    Day,
    Hour,
}

/// How records are assigned to periods.
#[derive(Clone, Copy, PartialEq, Eq, Structural, Debug)]
pub enum PeriodSel {
    Window(u64, u64),
    DroneDay(u128),
    DroneHour(u128),
}

impl PeriodSel {
    /// The period divisor, in milliseconds.
    pub open spec fn spec_divisor(self) -> int {
        match self {
            PeriodSel::Window(_, _) => 86_400_000,
            PeriodSel::DroneDay(_) => 86_400_000,
            PeriodSel::DroneHour(_) => 3_600_000,
        }
    }

    /// Whether a record belongs to this period scheme at all.
    pub open spec fn spec_included(self, m: EngagementRecordModel) -> bool {
        match self {
            PeriodSel::Window(start, end) => start <= m.timestamp_ms <= end,
            PeriodSel::DroneDay(d) => m.drone_id == d,
            PeriodSel::DroneHour(d) => m.drone_id == d,
        }
    }

    /// The counting filter for one period.
    pub open spec fn spec_filter(self, p: u64) -> RecordFilter {
        match self {
            PeriodSel::Window(start, end) => RecordFilter::ByDayInWindow(p, start, end),
            PeriodSel::DroneDay(d) => RecordFilter::ByDroneDay(d, p),
            PeriodSel::DroneHour(d) => RecordFilter::ByDroneHour(d, p),
        }
    }
}

/// Some included record falls in the period.
pub open spec fn spec_has_period(s: Seq<EngagementRecord>, sel: PeriodSel, p: u64) -> bool {
    exists|i: int|
        0 <= i < s.len() && sel.spec_included((#[trigger] s[i])@) && (s[i].timestamp_ms as int)
            / sel.spec_divisor() == p as int
}

/// Collect the distinct period indices of the included records: each
/// listed once, listed exactly when some included record falls in it, and
/// small enough that the period start instant fits.
fn distinct_periods(v: &Vec<EngagementRecord>, sel: PeriodSel) -> (r: Vec<u64>)
    ensures
        forall|p: int, q: int| 0 <= p < q < r@.len() ==> r@[p] != r@[q],
        forall|p: u64| r@.contains(p) <==> spec_has_period(v@, sel, p),
        forall|k: int| 0 <= k < r@.len() ==> (#[trigger] r@[k]) as int * sel.spec_divisor()
            <= u64::MAX,
{
    let divisor: u64 = match sel {
        PeriodSel::Window(_, _) => 86_400_000,
        PeriodSel::DroneDay(_) => 86_400_000,
        PeriodSel::DroneHour(_) => 3_600_000,
    };
    let mut r: Vec<u64> = Vec::new();
    let mut i: usize = 0;
    while i < v.len()
        invariant
            i <= v@.len(),
            divisor == sel.spec_divisor(),
            forall|p: int, q: int| 0 <= p < q < r@.len() ==> r@[p] != r@[q],
            forall|p: u64| r@.contains(p) <==> spec_has_period(v@.subrange(0, i as int), sel, p),
            forall|k: int| 0 <= k < r@.len() ==> (#[trigger] r@[k]) as int * sel.spec_divisor()
                <= u64::MAX,
        decreases v@.len() - i,
    {
        let ghost pre = v@.subrange(0, i as int);
        let ghost post = v@.subrange(0, i + 1);
        proof {
            assert(forall|k: int| 0 <= k < i ==> #[trigger] post[k] == pre[k]);
            assert(post[i as int] == v@[i as int]);
        }
        let included = match sel {
            PeriodSel::Window(start, end) => start <= v[i].timestamp_ms && v[i].timestamp_ms
                <= end,
            PeriodSel::DroneDay(d) => v[i].drone_id == d,
            PeriodSel::DroneHour(d) => v[i].drone_id == d,
        };
        if included {
            let p = v[i].timestamp_ms / divisor;
            proof {
                assert(p as int * sel.spec_divisor() <= v@[i as int].timestamp_ms as int)
                    by (nonlinear_arith)
                    requires
                        p as int == v@[i as int].timestamp_ms as int / sel.spec_divisor(),
                        sel.spec_divisor() > 0,
                        v@[i as int].timestamp_ms >= 0,
                ;
            }
            let mut seen = false;
            let mut j: usize = 0;
            while j < r.len()
                invariant
                    j <= r@.len(),
                    seen == r@.subrange(0, j as int).contains(p),
                decreases r@.len() - j,
            {
                if r[j] == p {
                    seen = true;
                    proof {
                        assert(r@.subrange(0, j + 1)[j as int] == p);
                    }
                } else {
                    proof {
                        assert(r@.subrange(0, j + 1) =~= r@.subrange(0, j as int).push(
                            r@[j as int],
                        ));
                    }
                }
                j += 1;
            }
            proof {
                assert(r@.subrange(0, r@.len() as int) =~= r@);
            }
            if !seen {
                let ghost r0 = r@;
                r.push(p);
                proof {
                    assert forall|p2: u64| r@.contains(p2) <==> spec_has_period(post, sel, p2) by {
                        if p2 == p {
                            assert(r@[r@.len() - 1] == p);
                            assert(sel.spec_included(post[i as int]@)
                                && (post[i as int].timestamp_ms as int) / sel.spec_divisor()
                                == p as int);
                        } else {
                            assert(r@.contains(p2) <==> r0.contains(p2)) by {
                                if r0.contains(p2) {
                                    let k = choose|k: int|
                                        0 <= k < r0.len() && #[trigger] r0[k] == p2;
                                    assert(r@[k] == p2);
                                } else if r@.contains(p2) {
                                    let k = choose|k: int|
                                        0 <= k < r@.len() && #[trigger] r@[k] == p2;
                                    assert(k < r0.len());
                                    assert(r0[k] == p2);
                                }
                            }
                            assert(spec_has_period(post, sel, p2) <==> spec_has_period(
                                pre,
                                sel,
                                p2,
                            )) by {
                                if spec_has_period(post, sel, p2) {
                                    let k = choose|k: int|
                                        0 <= k < post.len() && sel.spec_included(
                                            (#[trigger] post[k])@,
                                        ) && (post[k].timestamp_ms as int) / sel.spec_divisor()
                                            == p2 as int;
                                    assert(k < pre.len());
                                    assert(pre[k] == post[k]);
                                }
                                if spec_has_period(pre, sel, p2) {
                                    let k = choose|k: int|
                                        0 <= k < pre.len() && sel.spec_included(
                                            (#[trigger] pre[k])@,
                                        ) && (pre[k].timestamp_ms as int) / sel.spec_divisor()
                                            == p2 as int;
                                    assert(post[k] == pre[k]);
                                }
                            }
                        }
                    }
                }
            } else {
                proof {
                    assert forall|p2: u64| r@.contains(p2) <==> spec_has_period(post, sel, p2) by {
                        if spec_has_period(post, sel, p2) && !spec_has_period(pre, sel, p2) {
                            let k = choose|k: int|
                                0 <= k < post.len() && sel.spec_included((#[trigger] post[k])@)
                                    && (post[k].timestamp_ms as int) / sel.spec_divisor()
                                    == p2 as int;
                            if k < pre.len() {
                                assert(pre[k] == post[k]);
                            } else {
                                assert(p2 == p);
                            }
                        }
                        if spec_has_period(pre, sel, p2) {
                            let k = choose|k: int|
                                0 <= k < pre.len() && sel.spec_included((#[trigger] pre[k])@)
                                    && (pre[k].timestamp_ms as int) / sel.spec_divisor()
                                    == p2 as int;
                            assert(post[k] == pre[k]);
                        }
                    }
                }
            }
        } else {
            proof {
                assert forall|p2: u64| r@.contains(p2) <==> spec_has_period(post, sel, p2) by {
                    if spec_has_period(post, sel, p2) {
                        let k = choose|k: int|
                            0 <= k < post.len() && sel.spec_included((#[trigger] post[k])@) && (
                            post[k].timestamp_ms as int) / sel.spec_divisor() == p2 as int;
                        assert(k < pre.len());
                        assert(pre[k] == post[k]);
                    }
                    if spec_has_period(pre, sel, p2) {
                        let k = choose|k: int|
                            0 <= k < pre.len() && sel.spec_included((#[trigger] pre[k])@) && (
                            pre[k].timestamp_ms as int) / sel.spec_divisor() == p2 as int;
                        assert(post[k] == pre[k]);
                    }
                }
            }
        }
        i += 1;
    }
    proof {
        assert(v@.subrange(0, v@.len() as int) =~= v@);
    }
    r
}

/// Sort period indices ascending, keeping the multiset.
fn sort_periods(v: Vec<u64>) -> (r: Vec<u64>)
    ensures
        r@.to_multiset() == v@.to_multiset(),
        r@.len() == v@.len(),
        forall|p: int, q: int| 0 <= p < q < r@.len() ==> r@[p] <= r@[q],
{
    let ghost all = v@;
    let mut rest = v;
    let mut out: Vec<u64> = Vec::new();
    while rest.len() > 0
        invariant
            out@.to_multiset().add(rest@.to_multiset()) =~= all.to_multiset(),
            out@.len() + rest@.len() == all.len(),
            forall|p: int, q: int| 0 <= p < q < out@.len() ==> out@[p] <= out@[q],
        decreases rest.len(),
    {
        let ghost rest0 = rest@;
        let x = rest.pop().unwrap();
        proof {
            assert(rest0 =~= rest@.push(x));
        }
        let mut j: usize = 0;
        while j < out.len() && out[j] <= x
            invariant
                j <= out@.len(),
                forall|k: int| 0 <= k < j ==> out@[k] <= x,
            decreases out@.len() - j,
        {
            j += 1;
        }
        let ghost out0 = out@;
        out.insert(j, x);
        proof {
            crate::ranking::lemma_insert_multiset(out0, j as int, x);
            assert forall|p: int, q: int| 0 <= p < q < out@.len() implies out@[p] <= out@[q] by {
                if p < j && q == j {
                } else if p == j && q > j {
                    assert(x < out0[j as int]);
                    assert(out0[j as int] <= out0[q - 1]);
                } else if p < j && q > j {
                    assert(out0[p] <= out0[q - 1]);
                } else if p > j && q > j {
                    assert(out0[p - 1] <= out0[q - 1]);
                }
            }
        }
    }
    proof {
        assert(rest@.to_multiset() =~= vstd::multiset::Multiset::<u64>::empty());
        assert(out@.to_multiset() =~= all.to_multiset());
    }
    out
}

impl AnalyticsEngine {
    /// Engagement counts by day over an inclusive instant range: one row
    /// per day with any selected record, exact counts, days ascending, a
    /// calendar label where the day is representable. Never fails.
    pub fn engagement_counts_by_date(&self, start_ms: u64, end_ms: u64) -> (r: Result<
        Vec<DateCount>,
        AnalyticsError,
    >)
        requires
            self.wf(),
            self.engagements@.len() <= u64::MAX,
        ensures
            (r matches Ok(ds) && ({
                let s = self.engagements@;
                let sel = PeriodSel::Window(start_ms, end_ms);
                &&& forall|k: int|
                    0 <= k < ds@.len() ==> ({
                        let f = RecordFilter::ByDayInWindow(
                            (#[trigger] ds@[k]).day_index,
                            start_ms,
                            end_ms,
                        );
                        &&& ds@[k].count == spec_count(s, f)
                        &&& ds@[k].count > 0
                        &&& ds@[k].label@ == (if ds@[k].day_index * 86_400_000
                            <= crate::timefmt::MAX_FORMAT_MS {
                            crate::timefmt::day_label_of((ds@[k].day_index * 86_400_000) as u64)
                        } else {
                            Seq::<char>::empty()
                        })
                    })
                &&& forall|p: int, q: int|
                    0 <= p < q < ds@.len() ==> (#[trigger] ds@[p]).day_index
                        < (#[trigger] ds@[q]).day_index
                &&& forall|p: u64|
                    spec_has_period(s, sel, p) <==> (exists|k: int|
                        0 <= k < ds@.len() && (#[trigger] ds@[k]).day_index == p)
            })),
    {
        let ghost s = self.engagements@;
        let sel = PeriodSel::Window(start_ms, end_ms);
        let periods = distinct_periods(&self.engagements, sel);
        let ghost plist = periods@;
        let sorted = sort_periods(periods);
        proof {
            broadcast use vstd::seq_lib::group_to_multiset_ensures;

            assert forall|p: u64| #[trigger] sorted@.contains(p) <==> plist.contains(p) by {
                if plist.contains(p) {
                    let k = choose|k: int| 0 <= k < plist.len() && plist[k] == p;
                    assert(sorted@.to_multiset().count(p) > 0);
                }
                if sorted@.contains(p) {
                    assert(plist.to_multiset().count(p) > 0);
                }
            }
            assert forall|p: int, q: int| 0 <= p < q < sorted@.len() implies sorted@[p]
                < sorted@[q] by {
                if sorted@[p] == sorted@[q] {
                    lemma_dup_count(sorted@, p, q);
                    lemma_count_two_indices(plist, sorted@[p]);
                    let (a, b) = choose|a: int, b: int|
                        0 <= a < b < plist.len() && plist[a] == sorted@[p] && plist[b]
                            == sorted@[p];
                    assert(false);
                }
            }
            assert forall|k: int| 0 <= k < sorted@.len() implies (#[trigger] sorted@[k]) as int
                * 86_400_000 <= u64::MAX by {
                assert(plist.to_multiset().count(sorted@[k]) > 0);
                assert(plist.contains(sorted@[k]));
                let j = choose|j: int| 0 <= j < plist.len() && plist[j] == sorted@[k];
            }
        }
        let mut out: Vec<DateCount> = Vec::new();
        let mut i: usize = 0;
        while i < sorted.len()
            invariant
                i <= sorted@.len(),
                self.wf(),
                s == self.engagements@,
                s.len() <= u64::MAX,
                out@.len() == i,
                forall|p: int, q: int| 0 <= p < q < sorted@.len() ==> sorted@[p] < sorted@[q],
                forall|p: u64| sorted@.contains(p) <==> spec_has_period(
                    s,
                    PeriodSel::Window(start_ms, end_ms),
                    p,
                ),
                forall|k: int|
                    0 <= k < sorted@.len() ==> (#[trigger] sorted@[k]) as int * 86_400_000
                        <= u64::MAX,
                forall|k: int| 0 <= k < i ==> (#[trigger] out@[k]).day_index == sorted@[k],
                forall|k: int|
                    0 <= k < i ==> ({
                        let f = RecordFilter::ByDayInWindow(
                            (#[trigger] out@[k]).day_index,
                            start_ms,
                            end_ms,
                        );
                        &&& out@[k].count == spec_count(s, f)
                        &&& out@[k].count > 0
                        &&& out@[k].label@ == (if out@[k].day_index * 86_400_000
                            <= crate::timefmt::MAX_FORMAT_MS {
                            crate::timefmt::day_label_of((out@[k].day_index * 86_400_000) as u64)
                        } else {
                            Seq::<char>::empty()
                        })
                    }),
            decreases sorted@.len() - i,
        {
            let p = sorted[i];
            let f = RecordFilter::ByDayInWindow(p, start_ms, end_ms);
            let (cnt, _h) = count_matching(&self.engagements, &f);
            proof {
                assert(sorted@.contains(p)) by {
                    assert(sorted@[i as int] == p);
                }
                assert(spec_has_period(s, PeriodSel::Window(start_ms, end_ms), p));
                let j = choose|j: int|
                    0 <= j < s.len() && PeriodSel::Window(start_ms, end_ms).spec_included(
                        (#[trigger] s[j])@,
                    ) && (s[j].timestamp_ms as int) / 86_400_000 == p as int;
                lemma_period_count_pos(s, start_ms, end_ms, p, j);
            }
            let start = p * 86_400_000;
            let label = if start <= crate::timefmt::MAX_FORMAT_MS {
                crate::timefmt::format_day_label(start)
            } else {
                String::new()
            };
            out.push(DateCount { day_index: p, label, count: cnt });
            i += 1;
        }
        proof {
            assert forall|p: u64| spec_has_period(
                s,
                PeriodSel::Window(start_ms, end_ms),
                p,
            ) implies (exists|k: int|
                0 <= k < out@.len() && (#[trigger] out@[k]).day_index == p) by {
                assert(sorted@.contains(p));
                let k = choose|k: int| 0 <= k < sorted@.len() && sorted@[k] == p;
                assert(out@[k].day_index == p);
            }
            assert forall|p: u64| (exists|k: int|
                0 <= k < out@.len() && (#[trigger] out@[k]).day_index == p) implies
                spec_has_period(s, PeriodSel::Window(start_ms, end_ms), p) by {
                let k = choose|k: int| 0 <= k < out@.len() && (#[trigger] out@[k]).day_index == p;
                assert(sorted@[k] == p);
                assert(sorted@.contains(p));
            }
        }
        Ok(out)
    }

    /// The accuracy trend of an asset, bucketed by day or by hour: one row
    /// per period with any record of the asset, exact counts, periods
    /// ascending, a calendar label where the period is representable.
    /// Never fails.
    pub fn accuracy_trend(&self, drone_id: u128, interval: TrendInterval) -> (r: Result<
        Vec<AccuracyDataPoint>,
        AnalyticsError,
    >)
        requires
            self.wf(),
            self.engagements@.len() <= u64::MAX,
        ensures
            (r matches Ok(ps) && ({
                let s = self.engagements@;
                let sel = (match interval {
                    TrendInterval::Day => PeriodSel::DroneDay(drone_id),
                    TrendInterval::Hour => PeriodSel::DroneHour(drone_id),
                });
                let divisor = sel.spec_divisor();
                &&& forall|k: int|
                    0 <= k < ps@.len() ==> ({
                        let p = (#[trigger] ps@[k]).period_start_ms as int / divisor;
                        let f = sel.spec_filter((ps@[k].period_start_ms as int / divisor) as u64);
                        &&& ps@[k].period_start_ms as int % divisor == 0
                        &&& ps@[k].total_engagements == spec_count(s, f)
                        &&& ps@[k].total_engagements > 0
                        &&& ps@[k].hits == spec_count_hits(s, f)
                        &&& ps@[k].accuracy_x100 == spec_accuracy_x100_of(
                            spec_count(s, f),
                            spec_count_hits(s, f),
                        )
                        &&& ps@[k].label@ == (if ps@[k].period_start_ms
                            <= crate::timefmt::MAX_FORMAT_MS {
                            (match interval {
                                TrendInterval::Day => crate::timefmt::day_label_of(
                                    ps@[k].period_start_ms,
                                ),
                                TrendInterval::Hour => crate::timefmt::hour_bucket_of(
                                    ps@[k].period_start_ms,
                                ),
                            })
                        } else {
                            Seq::<char>::empty()
                        })
                    })
                &&& forall|p: int, q: int|
                    0 <= p < q < ps@.len() ==> (#[trigger] ps@[p]).period_start_ms
                        < (#[trigger] ps@[q]).period_start_ms
                &&& forall|p: u64|
                    spec_has_period(s, sel, p) <==> (exists|k: int|
                        0 <= k < ps@.len() && (#[trigger] ps@[k]).period_start_ms as int == p as int
                            * divisor)
            })),
    {
        let ghost s = self.engagements@;
        let sel = match interval {
            TrendInterval::Day => PeriodSel::DroneDay(drone_id),
            TrendInterval::Hour => PeriodSel::DroneHour(drone_id),
        };
        let divisor: u64 = match interval {
            TrendInterval::Day => 86_400_000,
            TrendInterval::Hour => 3_600_000,
        };
        let periods = distinct_periods(&self.engagements, sel);
        let ghost plist = periods@;
        let sorted = sort_periods(periods);
        proof {
            broadcast use vstd::seq_lib::group_to_multiset_ensures;

            assert forall|p: u64| #[trigger] sorted@.contains(p) <==> plist.contains(p) by {
                if plist.contains(p) {
                    let k = choose|k: int| 0 <= k < plist.len() && plist[k] == p;
                    assert(sorted@.to_multiset().count(p) > 0);
                }
                if sorted@.contains(p) {
                    assert(plist.to_multiset().count(p) > 0);
                }
            }
            assert forall|p: int, q: int| 0 <= p < q < sorted@.len() implies sorted@[p]
                < sorted@[q] by {
                if sorted@[p] == sorted@[q] {
                    lemma_dup_count(sorted@, p, q);
                    lemma_count_two_indices(plist, sorted@[p]);
                    let (a, b) = choose|a: int, b: int|
                        0 <= a < b < plist.len() && plist[a] == sorted@[p] && plist[b]
                            == sorted@[p];
                    assert(false);
                }
            }
            assert forall|k: int| 0 <= k < sorted@.len() implies (#[trigger] sorted@[k]) as int
                * sel.spec_divisor() <= u64::MAX by {
                assert(plist.to_multiset().count(sorted@[k]) > 0);
                assert(plist.contains(sorted@[k]));
                let j = choose|j: int| 0 <= j < plist.len() && plist[j] == sorted@[k];
            }
        }
        let mut out: Vec<AccuracyDataPoint> = Vec::new();
        let mut i: usize = 0;
        while i < sorted.len()
            invariant
                i <= sorted@.len(),
                self.wf(),
                s == self.engagements@,
                s.len() <= u64::MAX,
                out@.len() == i,
                divisor == sel.spec_divisor(),
                sel == (match interval {
                    TrendInterval::Day => PeriodSel::DroneDay(drone_id),
                    TrendInterval::Hour => PeriodSel::DroneHour(drone_id),
                }),
                forall|p: int, q: int| 0 <= p < q < sorted@.len() ==> sorted@[p] < sorted@[q],
                forall|p: u64| sorted@.contains(p) <==> spec_has_period(s, sel, p),
                forall|k: int|
                    0 <= k < sorted@.len() ==> (#[trigger] sorted@[k]) as int * sel.spec_divisor()
                        <= u64::MAX,
                forall|k: int|
                    0 <= k < i ==> (#[trigger] out@[k]).period_start_ms as int == sorted@[k] as int
                        * sel.spec_divisor(),
                forall|k: int|
                    0 <= k < i ==> ({
                        let f = sel.spec_filter(
                            ((#[trigger] out@[k]).period_start_ms as int / sel.spec_divisor())
                                as u64,
                        );
                        &&& out@[k].period_start_ms as int % sel.spec_divisor() == 0
                        &&& out@[k].total_engagements == spec_count(s, f)
                        &&& out@[k].total_engagements > 0
                        &&& out@[k].hits == spec_count_hits(s, f)
                        &&& out@[k].accuracy_x100 == spec_accuracy_x100_of(
                            spec_count(s, f),
                            spec_count_hits(s, f),
                        )
                        &&& out@[k].label@ == (if out@[k].period_start_ms
                            <= crate::timefmt::MAX_FORMAT_MS {
                            (match interval {
                                TrendInterval::Day => crate::timefmt::day_label_of(
                                    out@[k].period_start_ms,
                                ),
                                TrendInterval::Hour => crate::timefmt::hour_bucket_of(
                                    out@[k].period_start_ms,
                                ),
                            })
                        } else {
                            Seq::<char>::empty()
                        })
                    }),
            decreases sorted@.len() - i,
        {
            let p = sorted[i];
            let f = match sel {
                PeriodSel::Window(a, b) => RecordFilter::ByDayInWindow(p, a, b),
                PeriodSel::DroneDay(d) => RecordFilter::ByDroneDay(d, p),
                PeriodSel::DroneHour(d) => RecordFilter::ByDroneHour(d, p),
            };
            proof {
                assert(f == sel.spec_filter(p));
            }
            let (cnt, hits) = count_matching(&self.engagements, &f);
            proof {
                assert(sorted@.contains(p)) by {
                    assert(sorted@[i as int] == p);
                }
                assert(spec_has_period(s, sel, p));
                let j = choose|j: int|
                    0 <= j < s.len() && sel.spec_included((#[trigger] s[j])@) && (
                    s[j].timestamp_ms as int) / sel.spec_divisor() == p as int;
                lemma_trend_count_pos(s, sel, p, j);
                lemma_counts_le_len(s, f);
            }
            let acc = accuracy_x100_of(cnt, hits);
            let start = p * divisor;
            proof {
                assert(start as int / sel.spec_divisor() == p as int) by (nonlinear_arith)
                    requires
                        start as int == p as int * sel.spec_divisor(),
                        sel.spec_divisor() > 0,
                ;
                assert(start as int % sel.spec_divisor() == 0) by (nonlinear_arith)
                    requires
                        start as int == p as int * sel.spec_divisor(),
                        sel.spec_divisor() > 0,
                ;
            }
            let label = if start <= crate::timefmt::MAX_FORMAT_MS {
                match interval {
                    TrendInterval::Day => crate::timefmt::format_day_label(start),
                    TrendInterval::Hour => crate::timefmt::format_hour_bucket(start),
                }
            } else {
                String::new()
            };
            out.push(
                AccuracyDataPoint {
                    period_start_ms: start,
                    label,
                    total_engagements: cnt,
                    hits,
                    accuracy_x100: acc,
                },
            );
            i += 1;
        }
        proof {
            assert forall|p: u64| spec_has_period(s, sel, p) implies (exists|k: int|
                0 <= k < out@.len() && (#[trigger] out@[k]).period_start_ms as int == p as int
                    * sel.spec_divisor()) by {
                assert(sorted@.contains(p));
                let k = choose|k: int| 0 <= k < sorted@.len() && sorted@[k] == p;
                assert(out@[k].period_start_ms as int == p as int * sel.spec_divisor());
            }
            assert forall|p: u64| (exists|k: int|
                0 <= k < out@.len() && (#[trigger] out@[k]).period_start_ms as int == p as int
                    * sel.spec_divisor()) implies spec_has_period(s, sel, p) by {
                let k = choose|k: int|
                    0 <= k < out@.len() && (#[trigger] out@[k]).period_start_ms as int == p as int
                        * sel.spec_divisor();
                assert(sorted@[k] as int * sel.spec_divisor() == p as int * sel.spec_divisor());
                assert(sorted@[k] == p) by (nonlinear_arith)
                    requires
                        sorted@[k] as int * sel.spec_divisor() == p as int * sel.spec_divisor(),
                        sel.spec_divisor() > 0,
                ;
                assert(sorted@.contains(p)) by {
                    assert(sorted@[k] == p);
                }
            }
            assert forall|p: int, q: int|
                0 <= p < q < out@.len() implies (#[trigger] out@[p]).period_start_ms
                < (#[trigger] out@[q]).period_start_ms by {
                assert(sorted@[p] < sorted@[q]);
                assert(sorted@[p] as int * sel.spec_divisor() < sorted@[q] as int
                    * sel.spec_divisor()) by (nonlinear_arith)
                    requires
                        sorted@[p] < sorted@[q],
                        sel.spec_divisor() > 0,
                ;
            }
        }
        Ok(out)
    }
}

/// A record in the day window makes its day's count positive.
proof fn lemma_period_count_pos(s: Seq<EngagementRecord>, start: u64, end: u64, p: u64, j: int)
    requires
        0 <= j < s.len(),
        start <= s[j].timestamp_ms <= end,
        (s[j].timestamp_ms as int) / 86_400_000 == p as int,
    ensures
        spec_count(s, RecordFilter::ByDayInWindow(p, start, end)) > 0,
    decreases s.len(),
{
    if j == s.len() - 1 {
        assert(spec_matches(RecordFilter::ByDayInWindow(p, start, end), s.last()@));
    } else {
        assert(s.drop_last()[j] == s[j]);
        lemma_period_count_pos(s.drop_last(), start, end, p, j);
    }
}

/// A record of a period makes that period's count positive.
proof fn lemma_trend_count_pos(s: Seq<EngagementRecord>, sel: PeriodSel, p: u64, j: int)
    requires
        0 <= j < s.len(),
        sel.spec_included(s[j]@),
        (s[j].timestamp_ms as int) / sel.spec_divisor() == p as int,
    ensures
        spec_count(s, sel.spec_filter(p)) > 0,
    decreases s.len(),
{
    if j == s.len() - 1 {
        assert(spec_matches(sel.spec_filter(p), s.last()@));
    } else {
        assert(s.drop_last()[j] == s[j]);
        lemma_trend_count_pos(s.drop_last(), sel, p, j);
    }
}

} // verus!
