//! The in-process event broker: one topic per event kind, many producers,
//! many subscribers, each subscriber owning a bounded buffer.
//!
//! Publishing never blocks: an event is appended to every live subscriber's
//! buffer; a subscriber whose buffer is full is dropped (its stream closes
//! and its buffer is released). Filtering by convoy, asset, or minimum
//! severity happens on the subscriber side, after delivery. The heartbeat
//! pacer bounds the keep-alive stream to one message per second.

use vstd::prelude::*;
use crate::domain::{AlertSeverity, DroneStatus, RankChangeType, WeaponType};

verus! {

/// Bound on each subscriber's buffer; overflowing it drops the subscriber.
pub const SUBSCRIBER_BUFFER: usize = 1024;

// =============================================================================
// EVENT TYPES
// =============================================================================

pub struct EngagementEventModel {
    pub convoy_id: u128,
    pub drone_id: u128,
    pub callsign: Seq<char>,
    pub hit: bool,
    pub weapon_type: WeaponType,
    pub new_accuracy_x100: u64,
    pub timestamp_ms: u64,
}

/// A hit or miss was recorded.
#[derive(Debug)]
pub struct EngagementEvent {
    pub convoy_id: u128,
    pub drone_id: u128,
    pub callsign: String,
    pub hit: bool,
    pub weapon_type: WeaponType,
    pub new_accuracy_x100: u64,
    pub timestamp_ms: u64,
}

impl View for EngagementEvent {
    type V = EngagementEventModel;

    open spec fn view(&self) -> EngagementEventModel {
        EngagementEventModel {
            convoy_id: self.convoy_id,
            drone_id: self.drone_id,
            callsign: self.callsign@,
            hit: self.hit,
            weapon_type: self.weapon_type,
            new_accuracy_x100: self.new_accuracy_x100,
            timestamp_ms: self.timestamp_ms,
        }
    }
}

pub struct LeaderboardUpdateEventModel {
    pub convoy_id: u128,
    pub drone_id: u128,
    pub callsign: Seq<char>,
    pub new_rank: u32,
    pub old_rank: Option<u32>,
    pub accuracy_x100: u64,
    pub change_type: RankChangeType,
    pub timestamp_ms: u64,
}

/// A ranking position or score changed.
#[derive(Debug)]
pub struct LeaderboardUpdateEvent {
    pub convoy_id: u128,
    pub drone_id: u128,
    pub callsign: String,
    pub new_rank: u32,
    pub old_rank: Option<u32>,
    pub accuracy_x100: u64,
    pub change_type: RankChangeType,
    pub timestamp_ms: u64,
}

impl View for LeaderboardUpdateEvent {
    type V = LeaderboardUpdateEventModel;

    open spec fn view(&self) -> LeaderboardUpdateEventModel {
        LeaderboardUpdateEventModel {
            convoy_id: self.convoy_id,
            drone_id: self.drone_id,
            callsign: self.callsign@,
            new_rank: self.new_rank,
            old_rank: self.old_rank,
            accuracy_x100: self.accuracy_x100,
            change_type: self.change_type,
            timestamp_ms: self.timestamp_ms,
        }
    }
}

pub struct DroneStatusEventModel {
    pub convoy_id: u128,
    pub drone_id: u128,
    pub callsign: Seq<char>,
    pub old_status: DroneStatus,
    pub new_status: DroneStatus,
    pub timestamp_ms: u64,
}

/// An asset's operational status changed.
#[derive(Debug)]
pub struct DroneStatusEvent {
    pub convoy_id: u128,
    pub drone_id: u128,
    pub callsign: String,
    pub old_status: DroneStatus,
    pub new_status: DroneStatus,
    pub timestamp_ms: u64,
}

impl View for DroneStatusEvent {
    type V = DroneStatusEventModel;

    open spec fn view(&self) -> DroneStatusEventModel {
        DroneStatusEventModel {
            convoy_id: self.convoy_id,
            drone_id: self.drone_id,
            callsign: self.callsign@,
            old_status: self.old_status,
            new_status: self.new_status,
            timestamp_ms: self.timestamp_ms,
        }
    }
}

pub struct AlertEventModel {
    pub alert_id: u128,
    pub convoy_id: u128,
    pub drone_id: Option<u128>,
    pub severity: AlertSeverity,
    pub alert_type: Seq<char>,
    pub message: Seq<char>,
    pub timestamp_ms: u64,
}

/// An operational alert.
#[derive(Debug)]
pub struct AlertEvent {
    pub alert_id: u128,
    pub convoy_id: u128,
    pub drone_id: Option<u128>,
    pub severity: AlertSeverity,
    pub alert_type: String,
    pub message: String,
    pub timestamp_ms: u64,
}

impl View for AlertEvent {
    type V = AlertEventModel;

    open spec fn view(&self) -> AlertEventModel {
        AlertEventModel {
            alert_id: self.alert_id,
            convoy_id: self.convoy_id,
            drone_id: self.drone_id,
            severity: self.severity,
            alert_type: self.alert_type@,
            message: self.message@,
            timestamp_ms: self.timestamp_ms,
        }
    }
}

/// An event that can be fanned out: an exact copy per subscriber.
pub trait EventLike: View + Sized {
    fn dup(&self) -> (r: Self)
        ensures
            r@ == self@,
    ;
}

impl EventLike for EngagementEvent {
    fn dup(&self) -> (r: Self)
        ensures
            r@ == self@,
    {
        EngagementEvent {
            convoy_id: self.convoy_id,
            drone_id: self.drone_id,
            callsign: self.callsign.clone(),
            hit: self.hit,
            weapon_type: self.weapon_type,
            new_accuracy_x100: self.new_accuracy_x100,
            timestamp_ms: self.timestamp_ms,
        }
    }
}

impl EventLike for LeaderboardUpdateEvent {
    fn dup(&self) -> (r: Self)
        ensures
            r@ == self@,
    {
        LeaderboardUpdateEvent {
            convoy_id: self.convoy_id,
            drone_id: self.drone_id,
            callsign: self.callsign.clone(),
            new_rank: self.new_rank,
            old_rank: self.old_rank,
            accuracy_x100: self.accuracy_x100,
            change_type: self.change_type,
            timestamp_ms: self.timestamp_ms,
        }
    }
}

impl EventLike for DroneStatusEvent {
    fn dup(&self) -> (r: Self)
        ensures
            r@ == self@,
    {
        DroneStatusEvent {
            convoy_id: self.convoy_id,
            drone_id: self.drone_id,
            callsign: self.callsign.clone(),
            old_status: self.old_status,
            new_status: self.new_status,
            timestamp_ms: self.timestamp_ms,
        }
    }
}

impl EventLike for AlertEvent {
    fn dup(&self) -> (r: Self)
        ensures
            r@ == self@,
    {
        AlertEvent {
            alert_id: self.alert_id,
            convoy_id: self.convoy_id,
            drone_id: self.drone_id,
            severity: self.severity,
            alert_type: self.alert_type.clone(),
            message: self.message.clone(),
            timestamp_ms: self.timestamp_ms,
        }
    }
}

impl EventLike for crate::entities::Telemetry {
    fn dup(&self) -> (r: Self)
        ensures
            r@ == self@,
    {
        self.duplicate()
    }
}

// =============================================================================
// TOPIC
// =============================================================================

/// The views of a buffer's events.
pub open spec fn event_views<E: View>(s: Seq<E>) -> Seq<<E as View>::V> {
    s.map_values(|x: E| x@)
}

/// One subscriber: a liveness flag and its bounded buffer.
pub struct Subscriber<E> {
    pub live: bool,
    pub buffer: Vec<E>,
}

/// A many-producer many-subscriber fan-out for one event kind.
pub struct Topic<E> {
    pub subscribers: Vec<Subscriber<E>>,
}

impl<E: EventLike> Topic<E> {
    /// A topic with no subscribers.
    pub fn new() -> (t: Topic<E>)
        ensures
            t.subscribers@.len() == 0,
    {
        Topic { subscribers: Vec::new() }
    }

    /// Register a subscriber; its id is its index. The new subscriber is
    /// live with an empty buffer; nobody else is touched.
    pub fn subscribe(&mut self) -> (id: usize)
        ensures
            id == old(self).subscribers@.len(),
            final(self).subscribers@.len() == old(self).subscribers@.len() + 1,
            forall|i: int|
                0 <= i < old(self).subscribers@.len() ==> #[trigger] final(self).subscribers@[i]
                    == old(self).subscribers@[i],
            final(self).subscribers@.last().live,
            final(self).subscribers@.last().buffer@.len() == 0,
    {
        let id = self.subscribers.len();
        self.subscribers.push(Subscriber { live: true, buffer: Vec::new() });
        id
    }

    /// Fan an event out. Publishing never blocks: every live subscriber
    /// with room gets exactly one copy of the event appended; a live
    /// subscriber whose buffer is full is dropped — its stream closes and
    /// its buffer is released; dropped subscribers are untouched.
    pub fn publish(&mut self, event: &E)
        ensures
            final(self).subscribers@.len() == old(self).subscribers@.len(),
            forall|i: int|
                0 <= i < old(self).subscribers@.len() && (#[trigger] old(self).subscribers@[i]).live && old(self).subscribers@[i].buffer@.len()
                    < SUBSCRIBER_BUFFER ==> {
                    &&& (#[trigger] final(self).subscribers@[i]).live
                    &&& event_views(final(self).subscribers@[i].buffer@) == event_views(
                        old(self).subscribers@[i].buffer@,
                    ).push(event@)
                },
            forall|i: int|
                0 <= i < old(self).subscribers@.len() && (#[trigger] old(self).subscribers@[i]).live && old(self).subscribers@[i].buffer@.len()
                    >= SUBSCRIBER_BUFFER ==> {
                    &&& !(#[trigger] final(self).subscribers@[i]).live
                    &&& final(self).subscribers@[i].buffer@.len() == 0
                },
            forall|i: int|
                0 <= i < old(self).subscribers@.len() && !(#[trigger] old(self).subscribers@[i]).live ==> #[trigger] final(self).subscribers@[i] == old(
                    self,
                ).subscribers@[i],
    {
        let n = self.subscribers.len();
        let ghost orig = self.subscribers@;
        let mut i: usize = 0;
        while i < n
            invariant
                i <= n,
                n == orig.len(),
                self.subscribers@.len() == orig.len(),
                forall|k: int| i <= k < n ==> #[trigger] self.subscribers@[k] == orig[k],
                forall|k: int|
                    0 <= k < i && (#[trigger] orig[k]).live && orig[k].buffer@.len()
                        < SUBSCRIBER_BUFFER ==> {
                        &&& (#[trigger] self.subscribers@[k]).live
                        &&& event_views(self.subscribers@[k].buffer@) == event_views(
                            orig[k].buffer@,
                        ).push(event@)
                    },
                forall|k: int|
                    0 <= k < i && (#[trigger] orig[k]).live && orig[k].buffer@.len()
                        >= SUBSCRIBER_BUFFER ==> {
                        &&& !(#[trigger] self.subscribers@[k]).live
                        &&& self.subscribers@[k].buffer@.len() == 0
                    },
                forall|k: int|
                    0 <= k < i && !(#[trigger] orig[k]).live ==> #[trigger] self.subscribers@[k]
                        == orig[k],
            decreases n - i,
        {
            let s = vstd::std_specs::vec::vec_index_mut(&mut self.subscribers, i);
            if s.live {
                if s.buffer.len() < SUBSCRIBER_BUFFER {
                    let ghost b0 = s.buffer@;
                    s.buffer.push(event.dup());
                    proof {
                        assert(event_views(s.buffer@) =~= event_views(b0).push(event@));
                    }
                } else {
                    s.live = false;
                    s.buffer.clear();
                }
            }
            i += 1;
        }
    }

    /// Take everything delivered so far to a subscriber; its buffer is
    /// emptied and it stays as it was otherwise.
    pub fn drain(&mut self, id: usize) -> (r: Vec<E>)
        requires
            id < old(self).subscribers@.len(),
        ensures
            r@ == old(self).subscribers@[id as int].buffer@,
            final(self).subscribers@.len() == old(self).subscribers@.len(),
            final(self).subscribers@[id as int].live == old(self).subscribers@[id as int].live,
            final(self).subscribers@[id as int].buffer@.len() == 0,
            forall|i: int|
                0 <= i < old(self).subscribers@.len() && i != id ==> #[trigger] final(self).subscribers@[i] == old(self).subscribers@[i],
    {
        let s = vstd::std_specs::vec::vec_index_mut(&mut self.subscribers, id);
        let mut out: Vec<E> = Vec::new();
        core::mem::swap(&mut out, &mut s.buffer);
        out
    }

    /// Cancel a subscription: the stream closes and its buffer is
    /// released.
    pub fn close(&mut self, id: usize)
        requires
            id < old(self).subscribers@.len(),
        ensures
            final(self).subscribers@.len() == old(self).subscribers@.len(),
            !final(self).subscribers@[id as int].live,
            final(self).subscribers@[id as int].buffer@.len() == 0,
            forall|i: int|
                0 <= i < old(self).subscribers@.len() && i != id ==> #[trigger] final(self).subscribers@[i] == old(self).subscribers@[i],
    {
        let s = vstd::std_specs::vec::vec_index_mut(&mut self.subscribers, id);
        s.live = false;
        s.buffer.clear();
    }

    /// Whether a subscriber's stream is still open.
    pub fn is_open(&self, id: usize) -> (r: bool)
        requires
            id < self.subscribers@.len(),
        ensures
            r == self.subscribers@[id as int].live,
    {
        self.subscribers[id].live
    }
}

/// What one publication does to a topic: every live subscriber with room
/// got exactly the event appended; a live subscriber without room was
/// dropped with its buffer released; dropped subscribers are untouched.
pub open spec fn spec_delivered<E: View>(
    before: Topic<E>,
    after: Topic<E>,
    ev: <E as View>::V,
) -> bool {
    &&& after.subscribers@.len() == before.subscribers@.len()
    &&& forall|i: int|
        0 <= i < before.subscribers@.len() && (#[trigger] before.subscribers@[i]).live
            && before.subscribers@[i].buffer@.len() < SUBSCRIBER_BUFFER ==> {
            &&& (#[trigger] after.subscribers@[i]).live
            &&& event_views(after.subscribers@[i].buffer@) == event_views(
                before.subscribers@[i].buffer@,
            ).push(ev)
        }
    &&& forall|i: int|
        0 <= i < before.subscribers@.len() && (#[trigger] before.subscribers@[i]).live
            && before.subscribers@[i].buffer@.len() >= SUBSCRIBER_BUFFER ==> {
            &&& !(#[trigger] after.subscribers@[i]).live
            &&& after.subscribers@[i].buffer@.len() == 0
        }
    &&& forall|i: int|
        0 <= i < before.subscribers@.len() && !(#[trigger] before.subscribers@[i]).live
            ==> #[trigger] after.subscribers@[i] == before.subscribers@[i]
}

// =============================================================================
// SUBSCRIBER-SIDE FILTERS
// =============================================================================

/// The engagement events of one convoy, in delivery order.
pub open spec fn spec_filter_engagements(
    ms: Seq<EngagementEventModel>,
    convoy_id: u128,
) -> Seq<EngagementEventModel>
    decreases ms.len(),
{
    if ms.len() == 0 {
        Seq::empty()
    } else {
        let rest = spec_filter_engagements(ms.drop_last(), convoy_id);
        if ms.last().convoy_id == convoy_id {
            rest.push(ms.last())
        } else {
            rest
        }
    }
}

/// Keep the engagement events of one convoy, in delivery order.
pub fn filter_engagement_events(events: &Vec<EngagementEvent>, convoy_id: u128) -> (r: Vec<
    EngagementEvent,
>)
    ensures
        event_views(r@) == spec_filter_engagements(event_views(events@), convoy_id),
{
    let mut r: Vec<EngagementEvent> = Vec::new();
    let mut i: usize = 0;
    while i < events.len()
        invariant
            i <= events@.len(),
            event_views(r@) == spec_filter_engagements(
                event_views(events@.subrange(0, i as int)),
                convoy_id,
            ),
        decreases events@.len() - i,
    {
        let ghost pre = event_views(events@.subrange(0, i as int));
        let ghost post = event_views(events@.subrange(0, i + 1));
        proof {
            assert(post.drop_last() =~= pre);
            assert(post.last() == events@[i as int]@);
        }
        if events[i].convoy_id == convoy_id {
            let ghost r0 = r@;
            r.push(events[i].dup());
            proof {
                assert(event_views(r@) =~= event_views(r0).push(events@[i as int]@));
            }
        }
        i += 1;
    }
    proof {
        assert(events@.subrange(0, events@.len() as int) =~= events@);
    }
    r
}

/// Whether an alert passes a minimum-severity threshold: no threshold
/// passes everything; a threshold passes severities of equal or higher
/// rank, so INFO passes all, WARNING drops INFO, and CRITICAL keeps only
/// CRITICAL.
pub open spec fn spec_severity_passes(min: Option<AlertSeverity>, s: AlertSeverity) -> bool {
    match min {
        None => true,
        Some(m) => s.spec_rank() >= m.spec_rank(),
    }
}

pub fn severity_passes(min: Option<AlertSeverity>, s: AlertSeverity) -> (r: bool)
    ensures
        r == spec_severity_passes(min, s),
{
    match min {
        None => true,
        Some(m) => s.rank() >= m.rank(),
    }
}

/// The severity threshold is monotone: anything a stricter threshold
/// passes, a looser one passes too.
pub proof fn lemma_severity_monotone(m1: AlertSeverity, m2: AlertSeverity, s: AlertSeverity)
    requires
        m1.spec_rank() <= m2.spec_rank(),
        spec_severity_passes(Some(m2), s),
    ensures
        spec_severity_passes(Some(m1), s),
{
}

/// The alerts of one convoy at or above a minimum severity, in delivery
/// order.
pub open spec fn spec_filter_alerts(
    ms: Seq<AlertEventModel>,
    convoy_id: u128,
    min: Option<AlertSeverity>,
) -> Seq<AlertEventModel>
    decreases ms.len(),
{
    if ms.len() == 0 {
        Seq::empty()
    } else {
        let rest = spec_filter_alerts(ms.drop_last(), convoy_id, min);
        if ms.last().convoy_id == convoy_id && spec_severity_passes(min, ms.last().severity) {
            rest.push(ms.last())
        } else {
            rest
        }
    }
}

/// Keep the alerts of one convoy at or above a minimum severity, in
/// delivery order.
pub fn filter_alert_events(
    events: &Vec<AlertEvent>,
    convoy_id: u128,
    min: Option<AlertSeverity>,
) -> (r: Vec<AlertEvent>)
    ensures
        event_views(r@) == spec_filter_alerts(event_views(events@), convoy_id, min),
{
    let mut r: Vec<AlertEvent> = Vec::new();
    let mut i: usize = 0;
    while i < events.len()
        invariant
            i <= events@.len(),
            event_views(r@) == spec_filter_alerts(
                event_views(events@.subrange(0, i as int)),
                convoy_id,
                min,
            ),
        decreases events@.len() - i,
    {
        let ghost pre = event_views(events@.subrange(0, i as int));
        let ghost post = event_views(events@.subrange(0, i + 1));
        proof {
            assert(post.drop_last() =~= pre);
            assert(post.last() == events@[i as int]@);
        }
        if events[i].convoy_id == convoy_id && severity_passes(min, events[i].severity) {
            let ghost r0 = r@;
            r.push(events[i].dup());
            proof {
                assert(event_views(r@) =~= event_views(r0).push(events@[i as int]@));
            }
        }
        i += 1;
    }
    proof {
        assert(events@.subrange(0, events@.len() as int) =~= events@);
    }
    r
}

/// The ranking-update events of one convoy, in delivery order.
pub open spec fn spec_filter_leaderboard_updates(
    ms: Seq<LeaderboardUpdateEventModel>,
    convoy_id: u128,
) -> Seq<LeaderboardUpdateEventModel>
    decreases ms.len(),
{
    if ms.len() == 0 {
        Seq::empty()
    } else {
        let rest = spec_filter_leaderboard_updates(ms.drop_last(), convoy_id);
        if ms.last().convoy_id == convoy_id {
            rest.push(ms.last())
        } else {
            rest
        }
    }
}

/// Keep the ranking-update events of one convoy, in delivery order.
pub fn filter_leaderboard_updates(events: &Vec<LeaderboardUpdateEvent>, convoy_id: u128) -> (r: Vec<
    LeaderboardUpdateEvent,
>)
    ensures
        event_views(r@) == spec_filter_leaderboard_updates(event_views(events@), convoy_id),
{
    let mut r: Vec<LeaderboardUpdateEvent> = Vec::new();
    let mut i: usize = 0;
    while i < events.len()
        invariant
            i <= events@.len(),
            event_views(r@) == spec_filter_leaderboard_updates(
                event_views(events@.subrange(0, i as int)),
                convoy_id,
            ),
        decreases events@.len() - i,
    {
        let ghost pre = event_views(events@.subrange(0, i as int));
        let ghost post = event_views(events@.subrange(0, i + 1));
        proof {
            assert(post.drop_last() =~= pre);
            assert(post.last() == events@[i as int]@);
        }
        if events[i].convoy_id == convoy_id {
            let ghost r0 = r@;
            r.push(events[i].dup());
            proof {
                assert(event_views(r@) =~= event_views(r0).push(events@[i as int]@));
            }
        }
        i += 1;
    }
    proof {
        assert(events@.subrange(0, events@.len() as int) =~= events@);
    }
    r
}

// =============================================================================
// HEARTBEAT PACER
// =============================================================================

/// Paces the keep-alive stream: at most one emission per second.
pub struct HeartbeatPacer {
    pub last_emit_ms: Option<u64>,
}

impl HeartbeatPacer {
    /// A pacer that has never emitted.
    pub fn new() -> (p: HeartbeatPacer)
        ensures
            p.last_emit_ms is None,
    {
        HeartbeatPacer { last_emit_ms: None }
    }

    /// Decide whether to emit at instant `now_ms`: emit exactly when
    /// nothing was emitted yet or a full second has passed since the last
    /// emission, and remember the instant on emission.
    pub fn on_tick(&mut self, now_ms: u64) -> (emit: bool)
        ensures
            emit == (match old(self).last_emit_ms {
                None => true,
                Some(t) => now_ms >= t + 1000,
            }),
            (emit ==> final(self).last_emit_ms == Some(now_ms)),
            (!emit ==> *final(self) == *old(self)),
    {
        let emit = match self.last_emit_ms {
            None => true,
            Some(t) => now_ms >= t && now_ms - t >= 1000,
        };
        proof {
            if self.last_emit_ms is Some {
                let t = self.last_emit_ms->Some_0;
                assert((now_ms >= t && now_ms - t >= 1000) == (now_ms >= t + 1000));
            }
        }
        if emit {
            self.last_emit_ms = Some(now_ms);
        }
        emit
    }
}

/// At most one heartbeat per second: if the pacer emits at one instant and
/// then again at a later tick, at least a full second lies between the two
/// instants.
pub proof fn lemma_heartbeat_min_interval(p0: HeartbeatPacer, t1: u64, t2: u64)
    requires
        p0.last_emit_ms == Some(t1),
        match p0.last_emit_ms {
            None => true,
            Some(t) => t2 >= t + 1000,
        },
    ensures
        t2 >= t1 + 1000,
{
}

} // verus!
