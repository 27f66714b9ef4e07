//! The entity repositories over the two tiers: engagements (dual-written to
//! both mirrors), convoys, waypoints, and telemetry.

use vstd::prelude::*;
use vstd::math::min;
use crate::domain::{ConvoyStatus, DamageAssessment};
use crate::domain::{Coordinates, DroneStatus};
use crate::entities::{
    Convoy, ConvoyModel, Drone, DroneModel, Engagement, EngagementModel, Telemetry,
    TelemetryModel, Waypoint,
};
use crate::errors::PersistenceError;
use crate::kv::{find_key, find_key2, spec_lookup, spec_lookup2, upsert, upsert2};
use crate::repository::PersistenceCore;

verus! {

// =============================================================================
// ENGAGEMENT PROJECTIONS
// =============================================================================

/// The matching engagement models, newest record first.
pub open spec fn spec_recent_matching(
    s: Seq<Engagement>,
    sel: spec_fn(EngagementModel) -> bool,
) -> Seq<EngagementModel>
    decreases s.len(),
{
    if s.len() == 0 {
        Seq::empty()
    } else {
        let rest = spec_recent_matching(s.drop_last(), sel);
        if sel(s.last()@) {
            seq![s.last()@] + rest
        } else {
            rest
        }
    }
}

/// Prepending an (older) record appends its model, if selected.
proof fn lemma_recent_prepend(x: Engagement, t: Seq<Engagement>, sel: spec_fn(EngagementModel) -> bool)
    ensures
        spec_recent_matching(seq![x] + t, sel) == spec_recent_matching(t, sel) + (if sel(x@) {
            seq![x@]
        } else {
            Seq::<EngagementModel>::empty()
        }),
    decreases t.len(),
{
    reveal_with_fuel(spec_recent_matching, 3);
    let u = seq![x] + t;
    if t.len() == 0 {
        assert(u.len() == 1);
        assert(u.last() == x);
        assert(u.drop_last() =~= Seq::<Engagement>::empty());
        if sel(x@) {
            assert(spec_recent_matching(u, sel) =~= spec_recent_matching(t, sel) + seq![x@]);
        } else {
            assert(spec_recent_matching(u, sel) =~= spec_recent_matching(t, sel));
        }
    } else {
        assert(u.last() == t.last());
        assert(u.drop_last() =~= seq![x] + t.drop_last());
        lemma_recent_prepend(x, t.drop_last(), sel);
        if sel(t.last()@) {
            assert(spec_recent_matching(u, sel) =~= spec_recent_matching(t, sel) + (if sel(x@) {
                seq![x@]
            } else {
                Seq::<EngagementModel>::empty()
            }));
        } else {
            assert(spec_recent_matching(u, sel) =~= spec_recent_matching(t, sel) + (if sel(x@) {
                seq![x@]
            } else {
                Seq::<EngagementModel>::empty()
            }));
        }
    }
}

/// The models of a sequence of engagements.
pub open spec fn engagement_models(s: Seq<Engagement>) -> Seq<EngagementModel> {
    s.map_values(|e: Engagement| e@)
}

/// The index of the first record with the given id, scanning from the
/// start.
pub open spec fn spec_find_engagement(s: Seq<Engagement>, id: u128) -> Option<int>
    decreases s.len(),
{
    if s.len() == 0 {
        None
    } else if s.first().engagement_id == id {
        Some(0)
    } else {
        match spec_find_engagement(s.drop_first(), id) {
            Some(i) => Some(i + 1),
            None => None,
        }
    }
}

/// Scan a store for the first record with the given id.
fn find_engagement(v: &Vec<Engagement>, id: u128) -> (r: Option<usize>)
    ensures
        match r {
            Some(i) => spec_find_engagement(v@, id) == Some(i as int) && i < v@.len()
                && v@[i as int].engagement_id == id,
            None => spec_find_engagement(v@, id) is None,
        },
{
    let mut i: usize = 0;
    while i < v.len()
        invariant
            i <= v@.len(),
            forall|j: int| 0 <= j < i ==> (#[trigger] v@[j]).engagement_id != id,
            spec_find_engagement(v@.subrange(0, i as int), id) is None,
        decreases v@.len() - i,
    {
        let ghost pre = v@.subrange(0, i as int);
        if v[i].engagement_id == id {
            proof {
                lemma_find_from_prefix(v@, id, i as int);
            }
            return Some(i);
        }
        proof {
            lemma_find_none_extend(v@, id, i as int);
        }
        i += 1;
    }
    proof {
        assert(v@.subrange(0, v@.len() as int) =~= v@);
    }
    None
}

/// If no record before `i` has the id and the record at `i` does, the first
/// match is at `i`.
proof fn lemma_find_from_prefix(s: Seq<Engagement>, id: u128, i: int)
    requires
        0 <= i < s.len(),
        forall|j: int| 0 <= j < i ==> (#[trigger] s[j]).engagement_id != id,
        s[i].engagement_id == id,
    ensures
        spec_find_engagement(s, id) == Some(i),
    decreases i,
{
    if i == 0 {
    } else {
        assert(s.first().engagement_id != id);
        assert(forall|j: int|
            0 <= j < i - 1 ==> (#[trigger] s.drop_first()[j]).engagement_id != id);
        assert(s.drop_first()[i - 1] == s[i]);
        lemma_find_from_prefix(s.drop_first(), id, i - 1);
    }
}

/// If no record up to and including `i` has the id, the prefix of length
/// `i + 1` has no match.
proof fn lemma_find_none_extend(s: Seq<Engagement>, id: u128, i: int)
    requires
        0 <= i < s.len(),
        spec_find_engagement(s.subrange(0, i), id) is None,
        s[i].engagement_id != id,
    ensures
        spec_find_engagement(s.subrange(0, i + 1), id) is None,
    decreases i,
{
    reveal_with_fuel(spec_find_engagement, 3);
    if i == 0 {
        assert(s.subrange(0, 1).first() == s[0]);
        assert(s.subrange(0, 1).drop_first() =~= Seq::<Engagement>::empty());
    } else {
        let a = s.subrange(0, i + 1);
        let b = s.subrange(0, i);
        assert(a.first() == s[0]);
        assert(b.first() == s[0]);
        if s[0].engagement_id != id {
            assert(a.drop_first() =~= s.drop_first().subrange(0, i));
            assert(b.drop_first() =~= s.drop_first().subrange(0, i - 1));
            assert(s.drop_first()[i - 1] == s[i]);
            lemma_find_none_extend(s.drop_first(), id, i - 1);
        }
    }
}

// =============================================================================
// ENGAGEMENT REPOSITORY
// =============================================================================

/// Engagements: append-only records, written to both mirrors; reads return
/// the newest records first; battle damage assessment is the one mutable
/// part.
pub struct EngagementRepository;

impl EngagementRepository {
    pub fn new() -> (r: EngagementRepository) {
        EngagementRepository
    }

    /// Persist an engagement to both mirrors. Never fails: both writes are
    /// in-process appends.
    pub fn record(&self, store: &mut PersistenceCore, engagement: &Engagement) -> (r: Result<
        (),
        PersistenceError,
    >)
        requires
            old(store).wf(),
        ensures
            final(store).wf(),
            r is Ok,
            final(store).cold.engagements@.len() == old(store).cold.engagements@.len() + 1,
            final(store).cold.engagements@.drop_last() == old(store).cold.engagements@,
            final(store).cold.engagements@.last()@ == engagement@,
            final(store).cold.engagements_by_drone@.len() == old(
                store,
            ).cold.engagements_by_drone@.len() + 1,
            final(store).cold.engagements_by_drone@.drop_last() == old(
                store,
            ).cold.engagements_by_drone@,
            final(store).cold.engagements_by_drone@.last()@ == engagement@,
            final(store).cold.rows == old(store).cold.rows,
            final(store).cold.counters == old(store).cold.counters,
            final(store).cold.convoys == old(store).cold.convoys
                && final(store).cold.drones == old(store).cold.drones,
            final(store).cold.waypoints == old(store).cold.waypoints,
            final(store).cold.telemetry == old(store).cold.telemetry,
            final(store).hot == old(store).hot,
    {
        let ghost e0 = store.cold.engagements@;
        let ghost m0 = store.cold.engagements_by_drone@;
        store.cold.engagements.push(engagement.duplicate());
        store.cold.engagements_by_drone.push(engagement.duplicate());
        proof {
            assert(store.cold.engagements@.drop_last() =~= e0);
            assert(store.cold.engagements_by_drone@.drop_last() =~= m0);
        }
        Ok(())
    }

    /// The newest engagements of a convoy, at most `limit` of them.
    pub fn get_by_convoy(&self, store: &PersistenceCore, convoy_id: u128, limit: usize) -> (r: Vec<
        Engagement,
    >)
        requires
            store.wf(),
        ensures
            ({
                let all = spec_recent_matching(
                    store.cold.engagements@,
                    (|m: EngagementModel| m.convoy_id == convoy_id),
                );
                engagement_models(r@) == all.take(min(limit as int, all.len() as int))
            }),
    {
        collect_recent(&store.cold.engagements, Ghost(|m: EngagementModel| m.convoy_id == convoy_id), convoy_id, true, limit)
    }

    /// The newest engagements of an asset, at most `limit` of them, read
    /// from the by-asset mirror.
    pub fn get_by_drone(&self, store: &PersistenceCore, drone_id: u128, limit: usize) -> (r: Vec<
        Engagement,
    >)
        requires
            store.wf(),
        ensures
            ({
                let all = spec_recent_matching(
                    store.cold.engagements_by_drone@,
                    (|m: EngagementModel| m.drone_id == drone_id),
                );
                engagement_models(r@) == all.take(min(limit as int, all.len() as int))
            }),
    {
        collect_recent(&store.cold.engagements_by_drone, Ghost(|m: EngagementModel| m.drone_id == drone_id), drone_id, false, limit)
    }

    /// Update the battle damage assessment of an engagement, in both
    /// mirrors, by id. Fails exactly when the primary store has no record
    /// with the id; a missing mirror record is reconciled later and is not
    /// an error.
    pub fn update_bda(
        &self,
        store: &mut PersistenceCore,
        engagement_id: u128,
        assessment: DamageAssessment,
        notes: Option<String>,
    ) -> (r: Result<Engagement, PersistenceError>)
        requires
            old(store).wf(),
        ensures
            final(store).wf(),
            (spec_find_engagement(old(store).cold.engagements@, engagement_id) is None ==> (
            r matches Err(pe) && pe is NotFound && *final(store) == *old(store))),
            (spec_find_engagement(old(store).cold.engagements@, engagement_id) matches Some(i)
                ==> (r matches Ok(e) && ({
                &&& e@ == old(store).cold.engagements@[i].spec_with_bda(
                    assessment,
                    match notes {
                        Some(n) => Some(n@),
                        None => None,
                    },
                )
                &&& final(store).cold.engagements@ == old(store).cold.engagements@.update(
                    i,
                    final(store).cold.engagements@[i],
                )
                &&& final(store).cold.engagements@[i]@ == e@
                &&& (match spec_find_engagement(
                    old(store).cold.engagements_by_drone@,
                    engagement_id,
                ) {
                    Some(j) => final(store).cold.engagements_by_drone@ == old(
                        store,
                    ).cold.engagements_by_drone@.update(
                        j,
                        final(store).cold.engagements_by_drone@[j],
                    ) && final(store).cold.engagements_by_drone@[j]@ == old(
                        store,
                    ).cold.engagements_by_drone@[j].spec_with_bda(
                        assessment,
                        match notes {
                            Some(n) => Some(n@),
                            None => None,
                        },
                    ),
                    None => final(store).cold.engagements_by_drone == old(
                        store,
                    ).cold.engagements_by_drone,
                })
                &&& final(store).cold.rows == old(store).cold.rows
                &&& final(store).cold.counters == old(store).cold.counters
                &&& final(store).cold.convoys == old(store).cold.convoys
                && final(store).cold.drones == old(store).cold.drones
                &&& final(store).cold.waypoints == old(store).cold.waypoints
                &&& final(store).cold.telemetry == old(store).cold.telemetry
                &&& final(store).hot == old(store).hot
            }))),
    {
        let idx = find_engagement(&store.cold.engagements, engagement_id);
        match idx {
            None => Err(
                PersistenceError::NotFound {
                    entity_type: String::from_str("engagement"),
                    key: String::from_str("engagement_id"),
                },
            ),
            Some(i) => {
                let slot = vstd::std_specs::vec::vec_index_mut(&mut store.cold.engagements, i);
                slot.damage_assessment = assessment;
                slot.bda_notes = match &notes {
                    Some(n) => Some(n.clone()),
                    None => None,
                };
                let e = store.cold.engagements[i].duplicate();
                match find_engagement(&store.cold.engagements_by_drone, engagement_id) {
                    Some(j) => {
                        let slot2 = vstd::std_specs::vec::vec_index_mut(
                            &mut store.cold.engagements_by_drone,
                            j,
                        );
                        slot2.damage_assessment = assessment;
                        slot2.bda_notes = match &notes {
                            Some(n) => Some(n.clone()),
                            None => None,
                        };
                    },
                    None => {},
                }
                Ok(e)
            },
        }
    }
}

/// Collect, newest first, up to `limit` records matching the selector. The
/// exec test compares the convoy id (when `by_convoy`) or the asset id
/// against `key`; the ghost selector must agree with that test.
fn collect_recent(
    v: &Vec<Engagement>,
    Ghost(sel): Ghost<spec_fn(EngagementModel) -> bool>,
    key: u128,
    by_convoy: bool,
    limit: usize,
) -> (r: Vec<Engagement>)
    requires
        forall|m: EngagementModel| #[trigger] sel(m) <==> (if by_convoy {
            m.convoy_id == key
        } else {
            m.drone_id == key
        }),
    ensures
        ({
            let all = spec_recent_matching(v@, sel);
            engagement_models(r@) == all.take(min(limit as int, all.len() as int))
        }),
{
    let ghost all = spec_recent_matching(v@, sel);
    let mut r: Vec<Engagement> = Vec::new();
    let mut i: usize = v.len();
    while i > 0 && r.len() < limit
        invariant
            i <= v@.len(),
            r@.len() <= limit,
            forall|m: EngagementModel| #[trigger] sel(m) <==> (if by_convoy {
                m.convoy_id == key
            } else {
                m.drone_id == key
            }),
            engagement_models(r@) == spec_recent_matching(
                v@.subrange(i as int, v@.len() as int),
                sel,
            ),
        decreases i,
    {
        let ghost tail = v@.subrange(i as int, v@.len() as int);
        let ghost tail2 = v@.subrange(i - 1, v@.len() as int);
        proof {
            assert(tail2 =~= seq![v@[i - 1]] + tail);
            lemma_recent_prepend(v@[i - 1], tail, sel);
        }
        let matches_key = if by_convoy {
            v[i - 1].convoy_id == key
        } else {
            v[i - 1].drone_id == key
        };
        if matches_key {
            let ghost r0 = r@;
            r.push(v[i - 1].duplicate());
            proof {
                assert(sel(v@[i - 1]@));
                assert(engagement_models(r@) =~= engagement_models(r0).push(v@[i - 1]@));
                let part2 = spec_recent_matching(tail2, sel);
                assert(part2 =~= spec_recent_matching(tail, sel).push(v@[i - 1]@));
            }
        } else {
            proof {
                assert(!sel(v@[i - 1]@));
                assert(spec_recent_matching(tail2, sel) =~= spec_recent_matching(tail, sel));
            }
        }
        i -= 1;
    }
    proof {
        if i == 0 {
            assert(v@.subrange(0, v@.len() as int) =~= v@);
            assert(engagement_models(r@) =~= all.take(min(limit as int, all.len() as int)));
        } else {
            // Stopped because the limit was reached.
            assert(r@.len() == limit);
            let part = spec_recent_matching(v@.subrange(i as int, v@.len() as int), sel);
            lemma_recent_take(v@, sel, i as int);
            assert(part.len() <= all.len());
            assert(engagement_models(r@) =~= all.take(min(limit as int, all.len() as int)));
        }
    }
    r
}

/// The matches of a suffix are a prefix of the matches of the whole store.
proof fn lemma_recent_take(s: Seq<Engagement>, sel: spec_fn(EngagementModel) -> bool, i: int)
    requires
        0 <= i <= s.len(),
    ensures
        ({
            let part = spec_recent_matching(s.subrange(i, s.len() as int), sel);
            let all = spec_recent_matching(s, sel);
            part.len() <= all.len() && part == all.take(part.len() as int)
        }),
    decreases i,
{
    if i > 0 {
        lemma_recent_take(s, sel, i - 1);
        let t1 = s.subrange(i, s.len() as int);
        let t2 = s.subrange(i - 1, s.len() as int);
        assert(t2 =~= seq![s[i - 1]] + t1);
        lemma_recent_prepend(s[i - 1], t1, sel);
        let part1 = spec_recent_matching(t1, sel);
        let part2 = spec_recent_matching(t2, sel);
        let all = spec_recent_matching(s, sel);
        assert(part1 == part2.take(part1.len() as int));
        assert(part2 == all.take(part2.len() as int));
        assert(part1 =~= all.take(part1.len() as int));
    } else {
        assert(s.subrange(0, s.len() as int) =~= s);
        let part = spec_recent_matching(s, sel);
        assert(part =~= part.take(part.len() as int));
    }
}

// =============================================================================
// CONVOY REPOSITORY
// =============================================================================

/// The models of the convoys whose status is ACTIVE, in storage order.
pub open spec fn spec_active_convoys(s: Seq<(u128, Convoy)>) -> Seq<ConvoyModel>
    decreases s.len(),
{
    if s.len() == 0 {
        Seq::empty()
    } else {
        let rest = spec_active_convoys(s.drop_last());
        if s.last().1.status is Active {
            rest.push(s.last().1@)
        } else {
            rest
        }
    }
}

/// Convoys: created once, read by id, their status driven along the legal
/// transition chain.
pub struct ConvoyRepository;

impl ConvoyRepository {
    pub fn new() -> (r: ConvoyRepository) {
        ConvoyRepository
    }

    /// Store a convoy under its id. Idempotent for a retried create with
    /// the same id: the row is simply written again. Never fails.
    pub fn create(&self, store: &mut PersistenceCore, convoy: &Convoy) -> (r: Result<
        (),
        PersistenceError,
    >)
        requires
            old(store).wf(),
        ensures
            final(store).wf(),
            r is Ok,
            (spec_lookup(final(store).cold.convoys@, convoy.convoy_id) matches Some(c) && c@
                == convoy@),
            forall|k2: u128|
                k2 != convoy.convoy_id ==> spec_lookup(final(store).cold.convoys@, k2)
                    == spec_lookup(old(store).cold.convoys@, k2),
            final(store).cold.rows == old(store).cold.rows,
            final(store).cold.counters == old(store).cold.counters,
            final(store).cold.engagements == old(store).cold.engagements,
            final(store).cold.engagements_by_drone == old(store).cold.engagements_by_drone,
            final(store).cold.waypoints == old(store).cold.waypoints,
            final(store).cold.telemetry == old(store).cold.telemetry,
            final(store).hot == old(store).hot,
    {
        let ghost cv0 = store.cold.convoys@;
        upsert(&mut store.cold.convoys, convoy.convoy_id, convoy.duplicate());
        proof {
            assert forall|i: int| 0 <= i < store.cold.convoys@.len() implies (
            #[trigger] store.cold.convoys@[i]).1.convoy_id == store.cold.convoys@[i].0 by {
                let k = store.cold.convoys@[i].0;
                crate::kv::lemma_lookup_unique(store.cold.convoys@, k, i);
                if k != convoy.convoy_id {
                    crate::kv::lemma_lookup_index(cv0, k, store.cold.convoys@[i].1);
                }
            }
        }
        Ok(())
    }

    /// Read a convoy by id; a returned convoy carries that id.
    pub fn get(&self, store: &PersistenceCore, convoy_id: u128) -> (r: Option<Convoy>)
        requires
            store.wf(),
        ensures
            match spec_lookup(store.cold.convoys@, convoy_id) {
                Some(c) => r matches Some(out) && out@ == c@ && out.convoy_id == convoy_id,
                None => r is None,
            },
    {
        match find_key(&store.cold.convoys, convoy_id) {
            Some(i) => Some(store.cold.convoys[i].1.duplicate()),
            None => None,
        }
    }

    /// All convoys whose status is ACTIVE, in storage order.
    pub fn get_active(&self, store: &PersistenceCore) -> (r: Vec<Convoy>)
        requires
            store.wf(),
        ensures
            r@.map_values(|c: Convoy| c@) == spec_active_convoys(store.cold.convoys@),
    {
        let v = &store.cold.convoys;
        let mut r: Vec<Convoy> = Vec::new();
        let mut i: usize = 0;
        while i < v.len()
            invariant
                i <= v@.len(),
                r@.map_values(|c: Convoy| c@) == spec_active_convoys(v@.subrange(0, i as int)),
            decreases v@.len() - i,
        {
            let ghost pre = v@.subrange(0, i as int);
            let ghost post = v@.subrange(0, i + 1);
            proof {
                assert(post.drop_last() =~= pre);
                assert(post.last() == v@[i as int]);
            }
            match v[i].1.status {
                ConvoyStatus::Active => {
                    let ghost r0 = r@;
                    r.push(v[i].1.duplicate());
                    proof {
                        assert(r@.map_values(|c: Convoy| c@) =~= r0.map_values(
                            |c: Convoy| c@,
                        ).push(v@[i as int].1@));
                    }
                },
                _ => {},
            }
            i += 1;
        }
        proof {
            assert(v@.subrange(0, v@.len() as int) =~= v@);
        }
        r
    }

    /// Drive a convoy's status along PLANNING -> ACTIVE -> (RTB -> COMPLETE
    /// | ABORT). Fails with `NotFound` when no such convoy is stored and
    /// with `InvalidQuery` when the transition is not legal; succeeds, with
    /// only the status changed, exactly otherwise.
    pub fn update_status(&self, store: &mut PersistenceCore, convoy_id: u128, status: ConvoyStatus)
        -> (r: Result<(), PersistenceError>)
        requires
            old(store).wf(),
        ensures
            final(store).wf(),
            (spec_lookup(old(store).cold.convoys@, convoy_id) is None ==> (r matches Err(e)
                && e is NotFound && *final(store) == *old(store))),
            (spec_lookup(old(store).cold.convoys@, convoy_id) matches Some(c) ==> ({
                &&& (!c.status.spec_can_transition_to(status) ==> (r matches Err(e)
                    && e is InvalidQuery && *final(store) == *old(store)))
                &&& (c.status.spec_can_transition_to(status) ==> (r is Ok && ({
                    &&& (spec_lookup(final(store).cold.convoys@, convoy_id) matches Some(c2)
                        && c2@ == ConvoyModel { status: status, ..c@ })
                    &&& forall|k2: u128|
                        k2 != convoy_id ==> spec_lookup(final(store).cold.convoys@, k2)
                            == spec_lookup(old(store).cold.convoys@, k2)
                    &&& final(store).cold.rows == old(store).cold.rows
                    &&& final(store).cold.counters == old(store).cold.counters
                    &&& final(store).cold.engagements == old(store).cold.engagements
                    &&& final(store).cold.engagements_by_drone == old(
                        store,
                    ).cold.engagements_by_drone
                    &&& final(store).cold.waypoints == old(store).cold.waypoints
                    &&& final(store).cold.telemetry == old(store).cold.telemetry
                    &&& final(store).hot == old(store).hot
                })))
            })),
    {
        match find_key(&store.cold.convoys, convoy_id) {
            None => Err(
                PersistenceError::NotFound {
                    entity_type: String::from_str("convoy"),
                    key: String::from_str("convoy_id"),
                },
            ),
            Some(i) => {
                if !store.cold.convoys[i].1.status.can_transition_to(status) {
                    return Err(
                        PersistenceError::InvalidQuery(
                            String::from_str("illegal convoy status transition"),
                        ),
                    );
                }
                let mut updated = store.cold.convoys[i].1.duplicate();
                updated.status = status;
                let ghost cv0 = store.cold.convoys@;
                upsert(&mut store.cold.convoys, convoy_id, updated);
                proof {
                    assert forall|p: int| 0 <= p < store.cold.convoys@.len() implies (
                    #[trigger] store.cold.convoys@[p]).1.convoy_id == store.cold.convoys@[p].0 by {
                        let k = store.cold.convoys@[p].0;
                        crate::kv::lemma_lookup_unique(store.cold.convoys@, k, p);
                        if k != convoy_id {
                            crate::kv::lemma_lookup_index(cv0, k, store.cold.convoys@[p].1);
                        }
                    }
                }
                Ok(())
            },
        }
    }
}

// =============================================================================
// WAYPOINT REPOSITORY
// =============================================================================

/// The models of an asset's waypoints, in storage order.
pub open spec fn spec_drone_waypoints(s: Seq<((u128, u128), Waypoint)>, drone_id: u128) -> Seq<
    crate::entities::WaypointModel,
>
    decreases s.len(),
{
    if s.len() == 0 {
        Seq::empty()
    } else {
        let rest = spec_drone_waypoints(s.drop_last(), drone_id);
        if s.last().0.0 == drone_id {
            rest.push(s.last().1@)
        } else {
            rest
        }
    }
}

/// Another waypoint of the asset is ACTIVE.
pub open spec fn spec_other_active(
    s: Seq<((u128, u128), Waypoint)>,
    drone_id: u128,
    sequence_number: u32,
) -> bool {
    exists|i: int|
        0 <= i < s.len() && (#[trigger] s[i]).0.0 == drone_id && s[i].0.1 != sequence_number
            && s[i].1.status is Active
}

/// Waypoints: keyed by asset and sequence number; at most one waypoint per
/// asset may be ACTIVE.
pub struct WaypointRepository;

impl WaypointRepository {
    pub fn new() -> (r: WaypointRepository) {
        WaypointRepository
    }

    /// Store one waypoint under (asset, sequence number). Never fails.
    pub fn create(&self, store: &mut PersistenceCore, waypoint: &Waypoint) -> (r: Result<
        (),
        PersistenceError,
    >)
        requires
            old(store).wf(),
        ensures
            final(store).wf(),
            r is Ok,
            (spec_lookup2(
                final(store).cold.waypoints@,
                (waypoint.drone_id, waypoint.sequence_number as u128),
            ) matches Some(w) && w@ == waypoint@),
            forall|k2: (u128, u128)|
                k2 != (waypoint.drone_id, waypoint.sequence_number as u128) ==> spec_lookup2(
                    final(store).cold.waypoints@,
                    k2,
                ) == spec_lookup2(old(store).cold.waypoints@, k2),
            final(store).cold.rows == old(store).cold.rows,
            final(store).cold.counters == old(store).cold.counters,
            final(store).cold.engagements == old(store).cold.engagements,
            final(store).cold.engagements_by_drone == old(store).cold.engagements_by_drone,
            final(store).cold.convoys == old(store).cold.convoys
                && final(store).cold.drones == old(store).cold.drones,
            final(store).cold.telemetry == old(store).cold.telemetry,
            final(store).hot == old(store).hot,
    {
        let ghost wp0 = store.cold.waypoints@;
        upsert2(
            &mut store.cold.waypoints,
            waypoint.drone_id,
            waypoint.sequence_number as u128,
            waypoint.duplicate(),
        );
        proof {
            assert forall|i: int| 0 <= i < store.cold.waypoints@.len() implies {
                &&& (#[trigger] store.cold.waypoints@[i]).1.drone_id
                    == store.cold.waypoints@[i].0.0
                &&& store.cold.waypoints@[i].1.sequence_number as u128
                    == store.cold.waypoints@[i].0.1
            } by {
                let k = store.cold.waypoints@[i].0;
                crate::kv::lemma_lookup2_unique(store.cold.waypoints@, k, i);
                if k != (waypoint.drone_id, waypoint.sequence_number as u128) {
                    crate::kv::lemma_lookup2_index(wp0, k, store.cold.waypoints@[i].1);
                }
            }
        }
        Ok(())
    }

    /// All waypoints of an asset, in storage order.
    pub fn get_waypoints(&self, store: &PersistenceCore, drone_id: u128) -> (r: Vec<Waypoint>)
        requires
            store.wf(),
        ensures
            r@.map_values(|w: Waypoint| w@) == spec_drone_waypoints(
                store.cold.waypoints@,
                drone_id,
            ),
    {
        let v = &store.cold.waypoints;
        let mut r: Vec<Waypoint> = Vec::new();
        let mut i: usize = 0;
        while i < v.len()
            invariant
                i <= v@.len(),
                r@.map_values(|w: Waypoint| w@) == spec_drone_waypoints(
                    v@.subrange(0, i as int),
                    drone_id,
                ),
            decreases v@.len() - i,
        {
            let ghost pre = v@.subrange(0, i as int);
            let ghost post = v@.subrange(0, i + 1);
            proof {
                assert(post.drop_last() =~= pre);
                assert(post.last() == v@[i as int]);
            }
            if v[i].0.0 == drone_id {
                let ghost r0 = r@;
                r.push(v[i].1.duplicate());
                proof {
                    assert(r@.map_values(|w: Waypoint| w@) =~= r0.map_values(
                        |w: Waypoint| w@,
                    ).push(v@[i as int].1@));
                }
            }
            i += 1;
        }
        proof {
            assert(v@.subrange(0, v@.len() as int) =~= v@);
        }
        r
    }
}

// =============================================================================
// TELEMETRY REPOSITORY
// =============================================================================

/// The newest telemetry model of an asset: the row with the greatest
/// recording instant, the later-stored row winning a tie.
pub open spec fn spec_latest_telemetry(s: Seq<Telemetry>, drone_id: u128) -> Option<TelemetryModel>
    decreases s.len(),
{
    if s.len() == 0 {
        None
    } else {
        let rest = spec_latest_telemetry(s.drop_last(), drone_id);
        if s.last().drone_id == drone_id && (match rest {
            Some(m) => s.last().recorded_at_ms >= m.recorded_at_ms,
            None => true,
        }) {
            Some(s.last()@)
        } else {
            rest
        }
    }
}

/// Telemetry: append-only hourly-bucketed rows in the cold tier, with the
/// latest snapshot cached per asset in the hot tier.
pub struct TelemetryRepository;

impl TelemetryRepository {
    pub fn new() -> (r: TelemetryRepository) {
        TelemetryRepository
    }

    /// Append a snapshot to the cold tier and refresh the hot-tier latest
    /// snapshot, best effort. Never fails.
    pub fn insert(&self, store: &mut PersistenceCore, snapshot: &Telemetry) -> (r: Result<
        (),
        PersistenceError,
    >)
        requires
            old(store).wf(),
        ensures
            final(store).wf(),
            r is Ok,
            final(store).cold.telemetry@.len() == old(store).cold.telemetry@.len() + 1,
            final(store).cold.telemetry@.drop_last() == old(store).cold.telemetry@,
            final(store).cold.telemetry@.last()@ == snapshot@,
            final(store).cold.rows == old(store).cold.rows,
            final(store).cold.counters == old(store).cold.counters,
            final(store).cold.engagements == old(store).cold.engagements,
            final(store).cold.engagements_by_drone == old(store).cold.engagements_by_drone,
            final(store).cold.convoys == old(store).cold.convoys
                && final(store).cold.drones == old(store).cold.drones,
            final(store).cold.waypoints == old(store).cold.waypoints,
            (old(store).hot.available ==> (spec_lookup(
                final(store).hot.latest_telemetry@,
                snapshot.drone_id,
            ) matches Some(t) && t@ == snapshot@)),
            (!old(store).hot.available ==> final(store).hot == old(store).hot),
    {
        let ghost t0 = store.cold.telemetry@;
        store.cold.telemetry.push(snapshot.duplicate());
        proof {
            assert(store.cold.telemetry@.drop_last() =~= t0);
        }
        match store.hot.set_latest_telemetry(snapshot.drone_id, snapshot) {
            _ => {},
        }
        Ok(())
    }

    /// The newest snapshot of an asset: the hot-tier cached one while the
    /// tier is up and holds one, else the newest cold row.
    pub fn get_latest(&self, store: &PersistenceCore, drone_id: u128) -> (r: Option<Telemetry>)
        requires
            store.wf(),
        ensures
            ({
                let cached = spec_lookup(store.hot.latest_telemetry@, drone_id);
                let hot_hit = store.hot.available && cached is Some;
                &&& (hot_hit ==> (match cached {
                    Some(t) => r matches Some(out) && out@ == t@,
                    None => false,
                }))
                &&& (!hot_hit ==> (match spec_latest_telemetry(store.cold.telemetry@, drone_id) {
                    Some(m) => r matches Some(out) && out@ == m,
                    None => r is None,
                }))
            }),
    {
        if store.hot.available {
            match find_key(&store.hot.latest_telemetry, drone_id) {
                Some(i) => {
                    return Some(store.hot.latest_telemetry[i].1.duplicate());
                },
                None => {},
            }
        }
        let v = &store.cold.telemetry;
        let mut best: Option<usize> = None;
        let mut i: usize = 0;
        while i < v.len()
            invariant
                i <= v@.len(),
                match best {
                    Some(b) => b < i && v@[b as int].drone_id == drone_id
                        && spec_latest_telemetry(v@.subrange(0, i as int), drone_id) == Some(
                        v@[b as int]@,
                    ),
                    None => spec_latest_telemetry(v@.subrange(0, i as int), drone_id) is None,
                },
            decreases v@.len() - i,
        {
            let ghost pre = v@.subrange(0, i as int);
            let ghost post = v@.subrange(0, i + 1);
            proof {
                assert(post.drop_last() =~= pre);
                assert(post.last() == v@[i as int]);
            }
            if v[i].drone_id == drone_id {
                let take = match best {
                    Some(b) => v[i].recorded_at_ms >= v[b].recorded_at_ms,
                    None => true,
                };
                if take {
                    best = Some(i);
                }
            }
            i += 1;
        }
        proof {
            assert(v@.subrange(0, v@.len() as int) =~= v@);
        }
        match best {
            Some(b) => Some(v[b].duplicate()),
            None => None,
        }
    }
}

// =============================================================================
// DRONE REPOSITORY
// =============================================================================

/// The models of a convoy's assets, in storage order.
pub open spec fn spec_convoy_drones(s: Seq<((u128, u128), Drone)>, convoy_id: u128) -> Seq<
    DroneModel,
>
    decreases s.len(),
{
    if s.len() == 0 {
        Seq::empty()
    } else {
        let rest = spec_convoy_drones(s.drop_last(), convoy_id);
        if s.last().0.0 == convoy_id {
            rest.push(s.last().1@)
        } else {
            rest
        }
    }
}

/// Assets: keyed by (convoy, asset); created, read, and their state driven
/// by position, fuel, and status updates.
pub struct DroneRepository;

impl DroneRepository {
    pub fn new() -> (r: DroneRepository) {
        DroneRepository
    }

    /// Store an asset under (convoy, asset). Never fails.
    pub fn create(&self, store: &mut PersistenceCore, drone: &Drone) -> (r: Result<
        (),
        PersistenceError,
    >)
        requires
            old(store).wf(),
        ensures
            final(store).wf(),
            r is Ok,
            (spec_lookup2(final(store).cold.drones@, (drone.convoy_id, drone.drone_id))
                matches Some(d) && d@ == drone@),
            forall|k2: (u128, u128)|
                k2 != (drone.convoy_id, drone.drone_id) ==> spec_lookup2(
                    final(store).cold.drones@,
                    k2,
                ) == spec_lookup2(old(store).cold.drones@, k2),
            final(store).cold.rows == old(store).cold.rows,
            final(store).cold.counters == old(store).cold.counters,
            final(store).cold.engagements == old(store).cold.engagements,
            final(store).cold.engagements_by_drone == old(store).cold.engagements_by_drone,
            final(store).cold.convoys == old(store).cold.convoys,
            final(store).cold.waypoints == old(store).cold.waypoints,
            final(store).cold.telemetry == old(store).cold.telemetry,
            final(store).hot == old(store).hot,
    {
        let ghost dr0 = store.cold.drones@;
        upsert2(&mut store.cold.drones, drone.convoy_id, drone.drone_id, drone.duplicate());
        proof {
            assert forall|i: int| 0 <= i < store.cold.drones@.len() implies {
                &&& (#[trigger] store.cold.drones@[i]).1.convoy_id == store.cold.drones@[i].0.0
                &&& store.cold.drones@[i].1.drone_id == store.cold.drones@[i].0.1
            } by {
                let k = store.cold.drones@[i].0;
                crate::kv::lemma_lookup2_unique(store.cold.drones@, k, i);
                if k != (drone.convoy_id, drone.drone_id) {
                    crate::kv::lemma_lookup2_index(dr0, k, store.cold.drones@[i].1);
                }
            }
        }
        Ok(())
    }

    /// Read an asset by (convoy, asset); a returned asset carries those
    /// ids.
    pub fn get(&self, store: &PersistenceCore, convoy_id: u128, drone_id: u128) -> (r: Option<
        Drone,
    >)
        requires
            store.wf(),
        ensures
            match spec_lookup2(store.cold.drones@, (convoy_id, drone_id)) {
                Some(d) => r matches Some(out) && out@ == d@ && out.convoy_id == convoy_id
                    && out.drone_id == drone_id,
                None => r is None,
            },
    {
        match find_key2(&store.cold.drones, convoy_id, drone_id) {
            Some(i) => Some(store.cold.drones[i].1.duplicate()),
            None => None,
        }
    }

    /// All assets of a convoy, in storage order.
    pub fn get_by_convoy(&self, store: &PersistenceCore, convoy_id: u128) -> (r: Vec<Drone>)
        requires
            store.wf(),
        ensures
            r@.map_values(|d: Drone| d@) == spec_convoy_drones(store.cold.drones@, convoy_id),
    {
        let v = &store.cold.drones;
        let mut r: Vec<Drone> = Vec::new();
        let mut i: usize = 0;
        while i < v.len()
            invariant
                i <= v@.len(),
                r@.map_values(|d: Drone| d@) == spec_convoy_drones(
                    v@.subrange(0, i as int),
                    convoy_id,
                ),
            decreases v@.len() - i,
        {
            let ghost pre = v@.subrange(0, i as int);
            let ghost post = v@.subrange(0, i + 1);
            proof {
                assert(post.drop_last() =~= pre);
                assert(post.last() == v@[i as int]);
            }
            if v[i].0.0 == convoy_id {
                let ghost r0 = r@;
                r.push(v[i].1.duplicate());
                proof {
                    assert(r@.map_values(|d: Drone| d@) =~= r0.map_values(|d: Drone| d@).push(
                        v@[i as int].1@,
                    ));
                }
            }
            i += 1;
        }
        proof {
            assert(v@.subrange(0, v@.len() as int) =~= v@);
        }
        r
    }

    /// Update an asset's position, fuel, and status; the update instant is
    /// recorded. Fails with `NotFound` exactly when no such asset is
    /// stored.
    pub fn update_state(
        &self,
        store: &mut PersistenceCore,
        convoy_id: u128,
        drone_id: u128,
        position: Coordinates,
        fuel_pct: u32,
        status: DroneStatus,
        now_ms: u64,
    ) -> (r: Result<Drone, PersistenceError>)
        requires
            old(store).wf(),
        ensures
            final(store).wf(),
            (spec_lookup2(old(store).cold.drones@, (convoy_id, drone_id)) is None ==> (r is Err
                && *final(store) == *old(store))),
            (spec_lookup2(old(store).cold.drones@, (convoy_id, drone_id)) matches Some(d) ==> (
            r matches Ok(out) && ({
                &&& out@ == DroneModel {
                    current_position: position,
                    fuel_pct: fuel_pct,
                    status: status,
                    updated_at_ms: now_ms,
                    ..d@
                }
                &&& (spec_lookup2(final(store).cold.drones@, (convoy_id, drone_id))
                    matches Some(d2) && d2@ == out@)
                &&& forall|k2: (u128, u128)|
                    k2 != (convoy_id, drone_id) ==> spec_lookup2(final(store).cold.drones@, k2)
                        == spec_lookup2(old(store).cold.drones@, k2)
                &&& final(store).cold.rows == old(store).cold.rows
                &&& final(store).cold.counters == old(store).cold.counters
                &&& final(store).cold.engagements == old(store).cold.engagements
                &&& final(store).cold.engagements_by_drone == old(store).cold.engagements_by_drone
                &&& final(store).cold.convoys == old(store).cold.convoys
                &&& final(store).cold.waypoints == old(store).cold.waypoints
                &&& final(store).cold.telemetry == old(store).cold.telemetry
                &&& final(store).hot == old(store).hot
            }))),
    {
        match find_key2(&store.cold.drones, convoy_id, drone_id) {
            None => Err(
                PersistenceError::NotFound {
                    entity_type: String::from_str("drone"),
                    key: String::from_str("drone_id"),
                },
            ),
            Some(i) => {
                let mut updated = store.cold.drones[i].1.duplicate();
                updated.current_position = position;
                updated.fuel_pct = fuel_pct;
                updated.status = status;
                updated.updated_at_ms = now_ms;
                let out = updated.duplicate();
                let ghost dr0 = store.cold.drones@;
                upsert2(&mut store.cold.drones, convoy_id, drone_id, updated);
                proof {
                    assert forall|p: int| 0 <= p < store.cold.drones@.len() implies {
                        &&& (#[trigger] store.cold.drones@[p]).1.convoy_id
                            == store.cold.drones@[p].0.0
                        &&& store.cold.drones@[p].1.drone_id == store.cold.drones@[p].0.1
                    } by {
                        let k = store.cold.drones@[p].0;
                        crate::kv::lemma_lookup2_unique(store.cold.drones@, k, p);
                        if k != (convoy_id, drone_id) {
                            crate::kv::lemma_lookup2_index(dr0, k, store.cold.drones@[p].1);
                        }
                    }
                }
                Ok(out)
            },
        }
    }
}

} // verus!
