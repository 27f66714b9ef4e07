//! Domain model: value objects, enumerations, and entity types shared by the
//! persistence core, the API facade, and the analytics engine.
//!
//! Identifiers are 128-bit values; timestamps are milliseconds since the Unix
//! epoch, UTC. Angles are stored in integer microdegrees and centidegrees so
//! that every field is a plain value the contracts can speak about exactly.

use vstd::prelude::*;

verus! {

// =============================================================================
// VALUE OBJECTS
// =============================================================================

/// Geographic coordinates with flight vector data.
///
/// Latitude and longitude are in microdegrees (degrees times 1_000_000),
/// altitude in whole meters, heading in centidegrees (degrees times 100),
/// speed in centimeters per second.
#[derive(Clone, Copy, PartialEq, Eq, Structural, Debug)]
pub struct Coordinates {
    pub lat_udeg: i64,
    pub lon_udeg: i64,
    pub alt_m: i64,
    pub heading_cdeg: u32,
    pub speed_cmps: u32,
}

impl Coordinates {
    /// A coordinate is well formed when latitude is within +/-90 degrees,
    /// longitude within +/-180 degrees, and heading below 360 degrees.
    pub open spec fn wf(self) -> bool {
        &&& -90_000_000 <= self.lat_udeg <= 90_000_000
        &&& -180_000_000 <= self.lon_udeg <= 180_000_000
        &&& self.heading_cdeg < 36_000
    }

    /// Build a coordinate from latitude, longitude, and altitude, with zero
    /// heading and speed.
    pub fn new(lat_udeg: i64, lon_udeg: i64, alt_m: i64) -> (c: Coordinates)
        requires
            -90_000_000 <= lat_udeg <= 90_000_000,
            -180_000_000 <= lon_udeg <= 180_000_000,
        ensures
            c.wf(),
            c.lat_udeg == lat_udeg,
            c.lon_udeg == lon_udeg,
            c.alt_m == alt_m,
            c.heading_cdeg == 0,
            c.speed_cmps == 0,
    {
        Coordinates { lat_udeg, lon_udeg, alt_m, heading_cdeg: 0, speed_cmps: 0 }
    }
}

impl Default for Coordinates {
    /// The default coordinate is the Kabul reference point at 1800 m.
    fn default() -> (c: Coordinates)
        ensures
            c.wf(),
            c.lat_udeg == 34_555_300,
            c.lon_udeg == 69_207_500,
            c.alt_m == 1800,
    {
        Coordinates {
            lat_udeg: 34_555_300,
            lon_udeg: 69_207_500,
            alt_m: 1800,
            heading_cdeg: 0,
            speed_cmps: 0,
        }
    }
}

// =============================================================================
// ENUMS
// =============================================================================

/// Asset platform types.
#[derive(Clone, Copy, PartialEq, Eq, Structural, Debug, Hash)]
pub enum PlatformType {
    Mq9Reaper,
    Mq1cGrayEagle,
    Rq4GlobalHawk,
    Mq25Stingray,
}

impl PlatformType {
    pub open spec fn spec_name(self) -> Seq<char> {
        match self {
            PlatformType::Mq9Reaper => "MQ-9_REAPER"@,
            PlatformType::Mq1cGrayEagle => "MQ-1C_GRAY_EAGLE"@,
            PlatformType::Rq4GlobalHawk => "RQ-4_GLOBAL_HAWK"@,
            PlatformType::Mq25Stingray => "MQ-25_STINGRAY"@,
        }
    }

    pub fn as_str(&self) -> (r: &'static str)
        ensures
            r@ == self.spec_name(),
    {
        match self {
            PlatformType::Mq9Reaper => "MQ-9_REAPER",
            PlatformType::Mq1cGrayEagle => "MQ-1C_GRAY_EAGLE",
            PlatformType::Rq4GlobalHawk => "RQ-4_GLOBAL_HAWK",
            PlatformType::Mq25Stingray => "MQ-25_STINGRAY",
        }
    }

    /// A stable index for grouping, 0 to 3.
    pub open spec fn spec_index(self) -> int {
        match self {
            PlatformType::Mq9Reaper => 0,
            PlatformType::Mq1cGrayEagle => 1,
            PlatformType::Rq4GlobalHawk => 2,
            PlatformType::Mq25Stingray => 3,
        }
    }

    pub fn index(&self) -> (i: usize)
        ensures
            i == self.spec_index(),
    {
        match self {
            PlatformType::Mq9Reaper => 0,
            PlatformType::Mq1cGrayEagle => 1,
            PlatformType::Rq4GlobalHawk => 2,
            PlatformType::Mq25Stingray => 3,
        }
    }

    /// The platform at a given index; inverse of `index`.
    pub fn from_index(i: usize) -> (p: PlatformType)
        requires
            i < 4,
        ensures
            p.spec_index() == i,
    {
        if i == 0 {
            PlatformType::Mq9Reaper
        } else if i == 1 {
            PlatformType::Mq1cGrayEagle
        } else if i == 2 {
            PlatformType::Rq4GlobalHawk
        } else {
            PlatformType::Mq25Stingray
        }
    }
}

/// Asset operational status.
#[derive(Clone, Copy, PartialEq, Eq, Structural, Debug, Hash)]
pub enum DroneStatus {
    Preflight,
    Airborne,
    Loiter,
    Ingress,
    Egress,
    Rtb,
    Landed,
    Maintenance,
}

impl DroneStatus {
    /// Whether this status counts as airborne.
    pub open spec fn spec_is_airborne(self) -> bool {
        match self {
            DroneStatus::Airborne | DroneStatus::Loiter | DroneStatus::Ingress
                | DroneStatus::Egress => true,
            _ => false,
        }
    }

    pub fn is_airborne(&self) -> (r: bool)
        ensures
            r == self.spec_is_airborne(),
    {
        match self {
            DroneStatus::Airborne | DroneStatus::Loiter | DroneStatus::Ingress
                | DroneStatus::Egress => true,
            _ => false,
        }
    }
}

/// Convoy mission status.
#[derive(Clone, Copy, PartialEq, Eq, Structural, Debug, Hash)]
pub enum ConvoyStatus {
    Planning,
    Active,
    Rtb,
    Complete,
    Abort,
}

impl ConvoyStatus {
    /// The legal status transitions: PLANNING -> ACTIVE -> (RTB -> COMPLETE | ABORT).
    pub open spec fn spec_can_transition_to(self, next: ConvoyStatus) -> bool {
        match (self, next) {
            (ConvoyStatus::Planning, ConvoyStatus::Active) => true,
            (ConvoyStatus::Active, ConvoyStatus::Rtb) => true,
            (ConvoyStatus::Active, ConvoyStatus::Abort) => true,
            (ConvoyStatus::Rtb, ConvoyStatus::Complete) => true,
            (ConvoyStatus::Rtb, ConvoyStatus::Abort) => true,
            _ => false,
        }
    }

    pub fn can_transition_to(&self, next: ConvoyStatus) -> (r: bool)
        ensures
            r == self.spec_can_transition_to(next),
    {
        match (self, next) {
            (ConvoyStatus::Planning, ConvoyStatus::Active) => true,
            (ConvoyStatus::Active, ConvoyStatus::Rtb) => true,
            (ConvoyStatus::Active, ConvoyStatus::Abort) => true,
            (ConvoyStatus::Rtb, ConvoyStatus::Complete) => true,
            (ConvoyStatus::Rtb, ConvoyStatus::Abort) => true,
            _ => false,
        }
    }

    /// COMPLETE and ABORT are terminal.
    pub open spec fn spec_is_terminal(self) -> bool {
        self is Complete || self is Abort
    }
}

/// Mission types.
#[derive(Clone, Copy, PartialEq, Eq, Structural, Debug, Hash)]
pub enum MissionType {
    Isr,
    Strike,
    Escort,
    Resupply,
    Sar,
}

/// Waypoint types.
#[derive(Clone, Copy, PartialEq, Eq, Structural, Debug, Hash)]
pub enum WaypointType {
    Nav,
    Loiter,
    Strike,
    Refuel,
    Rendezvous,
    Checkpoint,
}

/// Waypoint completion status.
#[derive(Clone, Copy, PartialEq, Eq, Structural, Debug, Hash)]
pub enum WaypointStatus {
    Pending,
    Active,
    Complete,
    Skipped,
}

/// Weapon types.
#[derive(Clone, Copy, PartialEq, Eq, Structural, Debug, Hash)]
pub enum WeaponType {
    Agm114Hellfire,
    Gbu12Paveway,
    Aim9xSidewinder,
    Gbu38Jdam,
    Agm176Griffin,
}

impl WeaponType {
    pub open spec fn spec_name(self) -> Seq<char> {
        match self {
            WeaponType::Agm114Hellfire => "AGM-114_HELLFIRE"@,
            WeaponType::Gbu12Paveway => "GBU-12_PAVEWAY"@,
            WeaponType::Aim9xSidewinder => "AIM-9X_SIDEWINDER"@,
            WeaponType::Gbu38Jdam => "GBU-38_JDAM"@,
            WeaponType::Agm176Griffin => "AGM-176_GRIFFIN"@,
        }
    }

    pub fn as_str(&self) -> (r: &'static str)
        ensures
            r@ == self.spec_name(),
    {
        match self {
            WeaponType::Agm114Hellfire => "AGM-114_HELLFIRE",
            WeaponType::Gbu12Paveway => "GBU-12_PAVEWAY",
            WeaponType::Aim9xSidewinder => "AIM-9X_SIDEWINDER",
            WeaponType::Gbu38Jdam => "GBU-38_JDAM",
            WeaponType::Agm176Griffin => "AGM-176_GRIFFIN",
        }
    }

    /// A stable index for grouping, 0 to 4.
    pub open spec fn spec_index(self) -> int {
        match self {
            WeaponType::Agm114Hellfire => 0,
            WeaponType::Gbu12Paveway => 1,
            WeaponType::Aim9xSidewinder => 2,
            WeaponType::Gbu38Jdam => 3,
            WeaponType::Agm176Griffin => 4,
        }
    }

    pub fn index(&self) -> (i: usize)
        ensures
            i == self.spec_index(),
    {
        match self {
            WeaponType::Agm114Hellfire => 0,
            WeaponType::Gbu12Paveway => 1,
            WeaponType::Aim9xSidewinder => 2,
            WeaponType::Gbu38Jdam => 3,
            WeaponType::Agm176Griffin => 4,
        }
    }

    /// The weapon at a given index; inverse of `index`.
    pub fn from_index(i: usize) -> (w: WeaponType)
        requires
            i < 5,
        ensures
            w.spec_index() == i,
    {
        if i == 0 {
            WeaponType::Agm114Hellfire
        } else if i == 1 {
            WeaponType::Gbu12Paveway
        } else if i == 2 {
            WeaponType::Aim9xSidewinder
        } else if i == 3 {
            WeaponType::Gbu38Jdam
        } else {
            WeaponType::Agm176Griffin
        }
    }
}

/// Weapon rail status.
#[derive(Clone, Copy, PartialEq, Eq, Structural, Debug, Hash)]
pub enum WeaponState {
    Armed,
    Safe,
    Jammed,
    Expended,
}

/// Target types.
#[derive(Clone, Copy, PartialEq, Eq, Structural, Debug, Hash)]
pub enum TargetType {
    Vehicle,
    Structure,
    Personnel,
    Radar,
    AirDefense,
    Supply,
}

impl TargetType {
    pub open spec fn spec_name(self) -> Seq<char> {
        match self {
            TargetType::Vehicle => "VEHICLE"@,
            TargetType::Structure => "STRUCTURE"@,
            TargetType::Personnel => "PERSONNEL"@,
            TargetType::Radar => "RADAR"@,
            TargetType::AirDefense => "AIR_DEFENSE"@,
            TargetType::Supply => "SUPPLY"@,
        }
    }

    pub fn as_str(&self) -> (r: &'static str)
        ensures
            r@ == self.spec_name(),
    {
        match self {
            TargetType::Vehicle => "VEHICLE",
            TargetType::Structure => "STRUCTURE",
            TargetType::Personnel => "PERSONNEL",
            TargetType::Radar => "RADAR",
            TargetType::AirDefense => "AIR_DEFENSE",
            TargetType::Supply => "SUPPLY",
        }
    }
}

/// Threat level classification.
#[derive(Clone, Copy, PartialEq, Eq, Structural, Debug, Hash)]
pub enum ThreatLevel {
    High,
    Medium,
    Low,
    Unknown,
}

/// Battle damage assessment.
#[derive(Clone, Copy, PartialEq, Eq, Structural, Debug, Hash)]
pub enum DamageAssessment {
    Destroyed,
    Damaged,
    Missed,
    PendingBda,
}

/// Collateral risk level.
#[derive(Clone, Copy, PartialEq, Eq, Structural, Debug, Hash)]
pub enum CollateralRisk {
    Negligible,
    Minimal,
    Moderate,
    High,
}

/// Sensor types.
#[derive(Clone, Copy, PartialEq, Eq, Structural, Debug, Hash)]
pub enum SensorType {
    EoIr,
    Sar,
    Sigint,
    Lidar,
}

/// Communication link types.
#[derive(Clone, Copy, PartialEq, Eq, Structural, Debug, Hash)]
pub enum LinkType {
    Satcom,
    Los,
    Mesh,
    Backup,
}

/// Alert severity levels, ordered INFO < WARNING < CRITICAL.
#[derive(Clone, Copy, PartialEq, Eq, Structural, Debug, Hash)]
pub enum AlertSeverity {
    Critical,
    Warning,
    Info,
}

impl AlertSeverity {
    /// Numeric severity rank: INFO = 0, WARNING = 1, CRITICAL = 2.
    pub open spec fn spec_rank(self) -> int {
        match self {
            AlertSeverity::Info => 0,
            AlertSeverity::Warning => 1,
            AlertSeverity::Critical => 2,
        }
    }

    pub fn rank(&self) -> (r: u32)
        ensures
            r == self.spec_rank(),
    {
        match self {
            AlertSeverity::Info => 0,
            AlertSeverity::Warning => 1,
            AlertSeverity::Critical => 2,
        }
    }
}

/// Ranking change kinds carried on ranking-update events.
#[derive(Clone, Copy, PartialEq, Eq, Structural, Debug, Hash)]
pub enum RankChangeType {
    RankUp,
    RankDown,
    NewEntry,
    ScoreUpdate,
    NoChange,
}

/// Sort order for queries.
#[derive(Clone, Copy, PartialEq, Eq, Structural, Debug, Hash)]
pub enum SortOrder {
    Asc,
    Desc,
}

impl Default for SortOrder {
    fn default() -> (r: SortOrder)
        ensures
            r is Desc,
    {
        SortOrder::Desc
    }
}

// =============================================================================
// NESTED VALUE OBJECTS
// =============================================================================

/// Weapon system status.
#[derive(Clone, Copy, PartialEq, Eq, Structural, Debug)]
pub struct WeaponStatus {
    pub weapon_type: WeaponType,
    pub rounds_remaining: i16,
    pub status: WeaponState,
}

/// Sensor payload status.
#[derive(Debug)]
pub struct SensorStatus {
    pub sensor_type: SensorType,
    pub operational: bool,
    pub mode: String,
}

/// Communication link status. Signal strength is in tenths of a dBm.
#[derive(Debug)]
pub struct CommLink {
    pub link_type: LinkType,
    pub signal_strength_ddbm: i32,
    pub latency_ms: i32,
    pub encryption: String,
}

/// Target information. Confidence is in percent, 0 to 100.
#[derive(Debug)]
pub struct TargetInfo {
    pub target_id: u128,
    pub target_type: TargetType,
    pub coordinates: Coordinates,
    pub confidence_pct: u32,
    pub threat_level: ThreatLevel,
}

// =============================================================================
// QUERY/FILTER TYPES
// =============================================================================

/// Inclusive time range filter, milliseconds since epoch.
#[derive(Clone, Copy, PartialEq, Eq, Structural, Debug)]
pub struct TimeRange {
    pub start_ms: u64,
    pub end_ms: u64,
}

/// Pagination parameters for repository reads.
#[derive(Clone, Copy, PartialEq, Eq, Structural, Debug)]
pub struct Pagination {
    pub limit: u32,
    pub offset: u32,
}

impl Default for Pagination {
    fn default() -> (p: Pagination)
        ensures
            p.limit == 50,
            p.offset == 0,
    {
        Pagination { limit: 50, offset: 0 }
    }
}

/// A convoy summary projection, as cached in the hot tier.
#[derive(Debug)]
pub struct ConvoySummary {
    pub convoy_id: u128,
    pub callsign: String,
    pub mission_type: MissionType,
    pub status: ConvoyStatus,
    pub drone_count: u32,
}

} // verus!
