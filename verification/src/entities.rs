//! Entity types persisted in the cold tier, with their mathematical models.
//!
//! Each entity has a `View` whose string fields are character sequences, so
//! contracts can state exactly what a read returns and what a write stores.

use vstd::prelude::*;
use crate::domain::{
    Coordinates, MissionType, ConvoyStatus, PlatformType, DroneStatus, WaypointType,
    WaypointStatus, WeaponType, TargetType, DamageAssessment,
};

verus! {

// =============================================================================
// CONVOY
// =============================================================================

pub struct ConvoyModel {
    pub convoy_id: u128,
    pub callsign: Seq<char>,
    pub mission_type: MissionType,
    pub status: ConvoyStatus,
    pub aor_name: Seq<char>,
    pub aor_center: Coordinates,
    pub aor_radius_km: u32,
    pub commanding_unit: Seq<char>,
    pub authorization_level: Seq<char>,
    pub roe_profile: Seq<char>,
    pub drone_ids: Seq<u128>,
    pub created_at_ms: u64,
    pub mission_start_ms: Option<u64>,
    pub mission_end_ms: Option<u64>,
}

/// A convoy: a mission-level grouping of assets.
#[derive(Debug)]
pub struct Convoy {
    pub convoy_id: u128,
    pub callsign: String,
    pub mission_type: MissionType,
    pub status: ConvoyStatus,
    pub aor_name: String,
    pub aor_center: Coordinates,
    pub aor_radius_km: u32,
    pub commanding_unit: String,
    pub authorization_level: String,
    pub roe_profile: String,
    pub drone_ids: Vec<u128>,
    pub created_at_ms: u64,
    pub mission_start_ms: Option<u64>,
    pub mission_end_ms: Option<u64>,
}

impl View for Convoy {
    type V = ConvoyModel;

    open spec fn view(&self) -> ConvoyModel {
        ConvoyModel {
            convoy_id: self.convoy_id,
            callsign: self.callsign@,
            mission_type: self.mission_type,
            status: self.status,
            aor_name: self.aor_name@,
            aor_center: self.aor_center,
            aor_radius_km: self.aor_radius_km,
            commanding_unit: self.commanding_unit@,
            authorization_level: self.authorization_level@,
            roe_profile: self.roe_profile@,
            drone_ids: self.drone_ids@,
            created_at_ms: self.created_at_ms,
            mission_start_ms: self.mission_start_ms,
            mission_end_ms: self.mission_end_ms,
        }
    }
}

impl Convoy {
    pub fn duplicate(&self) -> (c: Convoy)
        ensures
            c@ == self@,
    {
        Convoy {
            convoy_id: self.convoy_id,
            callsign: self.callsign.clone(),
            mission_type: self.mission_type,
            status: self.status,
            aor_name: self.aor_name.clone(),
            aor_center: self.aor_center,
            aor_radius_km: self.aor_radius_km,
            commanding_unit: self.commanding_unit.clone(),
            authorization_level: self.authorization_level.clone(),
            roe_profile: self.roe_profile.clone(),
            drone_ids: clone_ids(&self.drone_ids),
            created_at_ms: self.created_at_ms,
            mission_start_ms: self.mission_start_ms,
            mission_end_ms: self.mission_end_ms,
        }
    }
}

/// An exact copy of a vector of ids.
pub fn clone_ids(v: &Vec<u128>) -> (r: Vec<u128>)
    ensures
        r@ == v@,
{
    let mut r: Vec<u128> = Vec::new();
    let mut i: usize = 0;
    while i < v.len()
        invariant
            i <= v@.len(),
            r@ == v@.subrange(0, i as int),
        decreases v@.len() - i,
    {
        r.push(v[i]);
        proof {
            assert(r@ =~= v@.subrange(0, i + 1));
        }
        i += 1;
    }
    proof {
        assert(r@ =~= v@);
    }
    r
}

// =============================================================================
// DRONE
// =============================================================================

pub struct DroneModel {
    pub convoy_id: u128,
    pub drone_id: u128,
    pub tail_number: Seq<char>,
    pub callsign: Seq<char>,
    pub platform_type: PlatformType,
    pub status: DroneStatus,
    pub current_position: Coordinates,
    pub fuel_pct: u32,
    pub total_engagements: u64,
    pub successful_hits: u64,
    pub current_waypoint: u32,
    pub total_waypoints: u32,
    pub created_at_ms: u64,
    pub updated_at_ms: u64,
}

/// An asset: a single autonomous aerial platform.
#[derive(Debug)]
pub struct Drone {
    pub convoy_id: u128,
    pub drone_id: u128,
    pub tail_number: String,
    pub callsign: String,
    pub platform_type: PlatformType,
    pub status: DroneStatus,
    pub current_position: Coordinates,
    pub fuel_pct: u32,
    pub total_engagements: u64,
    pub successful_hits: u64,
    pub current_waypoint: u32,
    pub total_waypoints: u32,
    pub created_at_ms: u64,
    pub updated_at_ms: u64,
}

impl View for Drone {
    type V = DroneModel;

    open spec fn view(&self) -> DroneModel {
        DroneModel {
            convoy_id: self.convoy_id,
            drone_id: self.drone_id,
            tail_number: self.tail_number@,
            callsign: self.callsign@,
            platform_type: self.platform_type,
            status: self.status,
            current_position: self.current_position,
            fuel_pct: self.fuel_pct,
            total_engagements: self.total_engagements,
            successful_hits: self.successful_hits,
            current_waypoint: self.current_waypoint,
            total_waypoints: self.total_waypoints,
            created_at_ms: self.created_at_ms,
            updated_at_ms: self.updated_at_ms,
        }
    }
}

impl Drone {
    /// Fuel is critical below 20 percent.
    pub open spec fn spec_fuel_critical(self) -> bool {
        self.fuel_pct < 20
    }

    pub fn fuel_critical(&self) -> (r: bool)
        ensures
            r == self.spec_fuel_critical(),
    {
        self.fuel_pct < 20
    }

    pub fn duplicate(&self) -> (d: Drone)
        ensures
            d@ == self@,
    {
        Drone {
            convoy_id: self.convoy_id,
            drone_id: self.drone_id,
            tail_number: self.tail_number.clone(),
            callsign: self.callsign.clone(),
            platform_type: self.platform_type,
            status: self.status,
            current_position: self.current_position,
            fuel_pct: self.fuel_pct,
            total_engagements: self.total_engagements,
            successful_hits: self.successful_hits,
            current_waypoint: self.current_waypoint,
            total_waypoints: self.total_waypoints,
            created_at_ms: self.created_at_ms,
            updated_at_ms: self.updated_at_ms,
        }
    }
}

// =============================================================================
// WAYPOINT
// =============================================================================

pub struct WaypointModel {
    pub drone_id: u128,
    pub sequence_number: u32,
    pub waypoint_id: u128,
    pub name: Seq<char>,
    pub waypoint_type: WaypointType,
    pub coordinates: Coordinates,
    pub status: WaypointStatus,
    pub planned_arrival_ms: Option<u64>,
    pub actual_arrival_ms: Option<u64>,
    pub planned_departure_ms: Option<u64>,
    pub actual_departure_ms: Option<u64>,
    pub loiter_duration_min: Option<u32>,
}

/// A route waypoint, identified by asset and sequence number.
#[derive(Debug)]
pub struct Waypoint {
    pub drone_id: u128,
    pub sequence_number: u32,
    pub waypoint_id: u128,
    pub name: String,
    pub waypoint_type: WaypointType,
    pub coordinates: Coordinates,
    pub status: WaypointStatus,
    pub planned_arrival_ms: Option<u64>,
    pub actual_arrival_ms: Option<u64>,
    pub planned_departure_ms: Option<u64>,
    pub actual_departure_ms: Option<u64>,
    pub loiter_duration_min: Option<u32>,
}

impl View for Waypoint {
    type V = WaypointModel;

    open spec fn view(&self) -> WaypointModel {
        WaypointModel {
            drone_id: self.drone_id,
            sequence_number: self.sequence_number,
            waypoint_id: self.waypoint_id,
            name: self.name@,
            waypoint_type: self.waypoint_type,
            coordinates: self.coordinates,
            status: self.status,
            planned_arrival_ms: self.planned_arrival_ms,
            actual_arrival_ms: self.actual_arrival_ms,
            planned_departure_ms: self.planned_departure_ms,
            actual_departure_ms: self.actual_departure_ms,
            loiter_duration_min: self.loiter_duration_min,
        }
    }
}

impl Waypoint {
    pub fn duplicate(&self) -> (w: Waypoint)
        ensures
            w@ == self@,
    {
        Waypoint {
            drone_id: self.drone_id,
            sequence_number: self.sequence_number,
            waypoint_id: self.waypoint_id,
            name: self.name.clone(),
            waypoint_type: self.waypoint_type,
            coordinates: self.coordinates,
            status: self.status,
            planned_arrival_ms: self.planned_arrival_ms,
            actual_arrival_ms: self.actual_arrival_ms,
            planned_departure_ms: self.planned_departure_ms,
            actual_departure_ms: self.actual_departure_ms,
            loiter_duration_min: self.loiter_duration_min,
        }
    }
}

// =============================================================================
// TELEMETRY
// =============================================================================

pub struct TelemetryModel {
    pub drone_id: u128,
    pub time_bucket: Seq<char>,
    pub recorded_at_ms: u64,
    pub position: Coordinates,
    pub velocity_cmps: u32,
    pub fuel_pct: u32,
    pub current_waypoint: u32,
    pub mesh_connectivity_pct: u32,
    pub distance_to_next_m: u64,
}

/// A telemetry snapshot, bucketed by hour in the cold tier.
#[derive(Debug)]
pub struct Telemetry {
    pub drone_id: u128,
    pub time_bucket: String,
    pub recorded_at_ms: u64,
    pub position: Coordinates,
    pub velocity_cmps: u32,
    pub fuel_pct: u32,
    pub current_waypoint: u32,
    pub mesh_connectivity_pct: u32,
    pub distance_to_next_m: u64,
}

impl View for Telemetry {
    type V = TelemetryModel;

    open spec fn view(&self) -> TelemetryModel {
        TelemetryModel {
            drone_id: self.drone_id,
            time_bucket: self.time_bucket@,
            recorded_at_ms: self.recorded_at_ms,
            position: self.position,
            velocity_cmps: self.velocity_cmps,
            fuel_pct: self.fuel_pct,
            current_waypoint: self.current_waypoint,
            mesh_connectivity_pct: self.mesh_connectivity_pct,
            distance_to_next_m: self.distance_to_next_m,
        }
    }
}

impl Telemetry {
    /// The hourly bucket label of an instant: the calendar rendering of
    /// the first instant of its hour.
    pub fn generate_time_bucket(ms: u64) -> (r: String)
        requires
            ms <= crate::timefmt::MAX_FORMAT_MS,
        ensures
            r@ == crate::timefmt::hour_bucket_of(
                (crate::timefmt::spec_hour_index(ms) * 3_600_000) as u64,
            ),
            r@.len() == 10,
    {
        let start = crate::timefmt::hour_start(ms);
        crate::timefmt::format_hour_bucket(start)
    }

    pub fn duplicate(&self) -> (t: Telemetry)
        ensures
            t@ == self@,
    {
        Telemetry {
            drone_id: self.drone_id,
            time_bucket: self.time_bucket.clone(),
            recorded_at_ms: self.recorded_at_ms,
            position: self.position,
            velocity_cmps: self.velocity_cmps,
            fuel_pct: self.fuel_pct,
            current_waypoint: self.current_waypoint,
            mesh_connectivity_pct: self.mesh_connectivity_pct,
            distance_to_next_m: self.distance_to_next_m,
        }
    }
}

// =============================================================================
// ENGAGEMENT
// =============================================================================

pub struct EngagementModel {
    pub engagement_id: u128,
    pub convoy_id: u128,
    pub drone_id: u128,
    pub drone_callsign: Seq<char>,
    pub engaged_at_ms: u64,
    pub weapon_type: WeaponType,
    pub target_type: Option<TargetType>,
    pub target_coordinates: Coordinates,
    pub shooter_position: Coordinates,
    pub range_m: u64,
    pub hit: bool,
    pub damage_assessment: DamageAssessment,
    pub authorization_code: Seq<char>,
    pub roe_compliant: bool,
    pub bda_notes: Option<Seq<char>>,
}

/// A weapon-employment record. Range is in whole meters. Immutable except
/// for the battle-damage-assessment fields.
#[derive(Debug)]
pub struct Engagement {
    pub engagement_id: u128,
    pub convoy_id: u128,
    pub drone_id: u128,
    pub drone_callsign: String,
    pub engaged_at_ms: u64,
    pub weapon_type: WeaponType,
    pub target_type: Option<TargetType>,
    pub target_coordinates: Coordinates,
    pub shooter_position: Coordinates,
    pub range_m: u64,
    pub hit: bool,
    pub damage_assessment: DamageAssessment,
    pub authorization_code: String,
    pub roe_compliant: bool,
    pub bda_notes: Option<String>,
}

impl View for Engagement {
    type V = EngagementModel;

    open spec fn view(&self) -> EngagementModel {
        EngagementModel {
            engagement_id: self.engagement_id,
            convoy_id: self.convoy_id,
            drone_id: self.drone_id,
            drone_callsign: self.drone_callsign@,
            engaged_at_ms: self.engaged_at_ms,
            weapon_type: self.weapon_type,
            target_type: self.target_type,
            target_coordinates: self.target_coordinates,
            shooter_position: self.shooter_position,
            range_m: self.range_m,
            hit: self.hit,
            damage_assessment: self.damage_assessment,
            authorization_code: self.authorization_code@,
            roe_compliant: self.roe_compliant,
            bda_notes: match &self.bda_notes {
                Some(n) => Some(n@),
                None => None,
            },
        }
    }
}

impl Engagement {
    pub fn duplicate(&self) -> (e: Engagement)
        ensures
            e@ == self@,
    {
        Engagement {
            engagement_id: self.engagement_id,
            convoy_id: self.convoy_id,
            drone_id: self.drone_id,
            drone_callsign: self.drone_callsign.clone(),
            engaged_at_ms: self.engaged_at_ms,
            weapon_type: self.weapon_type,
            target_type: self.target_type,
            target_coordinates: self.target_coordinates,
            shooter_position: self.shooter_position,
            range_m: self.range_m,
            hit: self.hit,
            damage_assessment: self.damage_assessment,
            authorization_code: self.authorization_code.clone(),
            roe_compliant: self.roe_compliant,
            bda_notes: match &self.bda_notes {
                Some(n) => Some(n.clone()),
                None => None,
            },
        }
    }

    /// The model of this engagement with its BDA fields replaced.
    pub open spec fn spec_with_bda(
        self,
        assessment: DamageAssessment,
        notes: Option<Seq<char>>,
    ) -> EngagementModel {
        EngagementModel { damage_assessment: assessment, bda_notes: notes, ..self@ }
    }
}

} // verus!
