//! Report rendering: the canonical analytics report, and its tabular text
//! form. Section order is fixed — mission summary, top performers, weapon
//! effectiveness, platform comparison, altitude bands, range bands — with
//! the classification footer last. The text form is specified to the
//! character by a spec-level mirror of the assembly.

use vstd::prelude::*;
use crate::analytics::{
    AnalyticsEngine, BandAccuracy, DronePerformance, MissionSummary, PlatformComparison,
    WeaponStats,
};
use crate::errors::AnalyticsError;
use crate::numtext::{
    spec_dec_digits, spec_hundredths_text, hundredths_to_string, hundredths_to_string_u128,
    u64_to_string,
};
use crate::timefmt::{MAX_FORMAT_MS, format_rfc3339, rfc3339_of};

verus! {

/// The canonical report shape.
#[derive(Debug)]
pub struct AnalyticsReport {
    pub generated_at_ms: u64,
    pub generated_at: String,
    pub convoy_id: Option<u128>,
    pub mission_summary: Option<MissionSummary>,
    pub top_performers: Vec<DronePerformance>,
    pub weapon_stats: Vec<WeaponStats>,
    pub platform_comparison: Vec<PlatformComparison>,
    pub accuracy_by_altitude: Vec<BandAccuracy>,
    pub accuracy_by_range: Vec<BandAccuracy>,
}

impl AnalyticsEngine {
    /// Assemble the report: the generation instant, the mission summary
    /// for the convoy when one is named, and the whole fixed query set.
    /// On an empty store every section is empty.
    pub fn generate_report(&self, convoy_id: Option<u128>, now_ms: u64) -> (r: Result<
        AnalyticsReport,
        AnalyticsError,
    >)
        requires
            self.wf(),
            self.engagements@.len() <= u64::MAX,
            now_ms <= MAX_FORMAT_MS,
        ensures
            (r matches Ok(rep) && ({
                let s = self.engagements@;
                &&& rep.generated_at_ms == now_ms
                &&& rep.generated_at@ == rfc3339_of(now_ms)
                &&& rep.convoy_id == convoy_id
                &&& (convoy_id is None ==> rep.mission_summary is None)
                &&& (self.engagements@.len() == 0 ==> ({
                    &&& rep.mission_summary is None
                    &&& rep.top_performers@.len() == 0
                    &&& rep.weapon_stats@.len() == 0
                    &&& rep.platform_comparison@.len() == 0
                    &&& rep.accuracy_by_altitude@.len() == 0
                    &&& rep.accuracy_by_range@.len() == 0
                }))
                // The mission summary is the convoy's, exactly as
                // `mission_summary` states it.
                &&& (convoy_id matches Some(c) ==> ({
                    &&& (rep.mission_summary is None <==> crate::analytics::spec_count(
                        s,
                        crate::analytics::RecordFilter::ByConvoy(c),
                    ) == 0)
                    &&& (rep.mission_summary matches Some(ms) ==> ({
                        let f = crate::analytics::RecordFilter::ByConvoy(c);
                        &&& ms.convoy_id == c
                        &&& ms.total_engagements == crate::analytics::spec_count(s, f)
                        &&& ms.total_hits == crate::analytics::spec_count_hits(s, f)
                        &&& ms.total_drones == crate::analytics::spec_distinct_drone_count(s, f)
                        &&& ms.accuracy_x100 == crate::accuracy::spec_accuracy_x100_of(
                            crate::analytics::spec_count(s, f),
                            crate::analytics::spec_count_hits(s, f),
                        )
                    }))
                }))
                // Top performers, as `top_performers` with a page of 10
                // states them.
                &&& rep.top_performers@.len() <= 10
                &&& crate::analytics::spec_perf_sorted(rep.top_performers@)
                &&& (forall|k: int|
                    0 <= k < rep.top_performers@.len() ==> crate::analytics::spec_perf_ok(
                        s,
                        #[trigger] rep.top_performers@[k],
                    ))
                &&& (forall|p: int, q: int|
                    0 <= p < q < rep.top_performers@.len() ==> (
                    #[trigger] rep.top_performers@[p]).drone_id
                        != (#[trigger] rep.top_performers@[q]).drone_id)
                &&& (forall|d: u128|
                    #[trigger] crate::analytics::spec_count(
                        s,
                        crate::analytics::RecordFilter::ByDrone(d),
                    ) >= 5 && crate::analytics::spec_has_matching_drone(
                        s,
                        crate::analytics::RecordFilter::All,
                        d,
                    ) ==> ((exists|k: int|
                        0 <= k < rep.top_performers@.len() && (
                        #[trigger] rep.top_performers@[k]).drone_id == d)
                        || rep.top_performers@.len() == 10))
                // Weapon effectiveness, as `weapon_effectiveness` states
                // it.
                &&& rep.weapon_stats@.len() == crate::analytics::spec_used_weapon_count(
                    s,
                    convoy_id,
                )
                &&& crate::analytics::spec_ws_sorted(rep.weapon_stats@)
                &&& (forall|k: int|
                    0 <= k < rep.weapon_stats@.len() ==> crate::analytics::spec_weapon_stats_ok(
                        s,
                        convoy_id,
                        #[trigger] rep.weapon_stats@[k],
                    ))
                &&& (forall|w: crate::domain::WeaponType|
                    #[trigger] crate::analytics::spec_count(
                        s,
                        crate::analytics::RecordFilter::ByWeapon(convoy_id, w),
                    ) > 0 <==> (exists|k: int|
                        0 <= k < rep.weapon_stats@.len() && (
                        #[trigger] rep.weapon_stats@[k]).weapon_type == w))
                // Platform comparison, as `platform_comparison` states it.
                &&& rep.platform_comparison@.len() <= 4
                &&& (forall|k: int|
                    0 <= k < rep.platform_comparison@.len() ==> ({
                        let f = crate::analytics::RecordFilter::ByPlatform(
                            (#[trigger] rep.platform_comparison@[k]).platform_type,
                        );
                        &&& rep.platform_comparison@[k].total_engagements
                            == crate::analytics::spec_count(s, f)
                        &&& rep.platform_comparison@[k].total_engagements > 0
                        &&& rep.platform_comparison@[k].hits == crate::analytics::spec_count_hits(
                            s,
                            f,
                        )
                        &&& rep.platform_comparison@[k].drone_count
                            == crate::analytics::spec_distinct_drone_count(s, f)
                    }))
                &&& (forall|pt: crate::domain::PlatformType|
                    #[trigger] crate::analytics::spec_count(
                        s,
                        crate::analytics::RecordFilter::ByPlatform(pt),
                    ) > 0 <==> (exists|k: int|
                        0 <= k < rep.platform_comparison@.len() && (
                        #[trigger] rep.platform_comparison@[k]).platform_type == pt))
                // Altitude and range bands, as their queries state them.
                &&& rep.accuracy_by_altitude@.len() <= 4
                &&& (forall|k: int|
                    0 <= k < rep.accuracy_by_altitude@.len() ==> ({
                        let f = crate::analytics::RecordFilter::ByAltitudeBand(
                            (#[trigger] rep.accuracy_by_altitude@[k]).lo_m,
                            rep.accuracy_by_altitude@[k].hi_m,
                        );
                        &&& rep.accuracy_by_altitude@[k].total_engagements
                            == crate::analytics::spec_count(s, f)
                        &&& rep.accuracy_by_altitude@[k].total_engagements > 0
                        &&& rep.accuracy_by_altitude@[k].hits
                            == crate::analytics::spec_count_hits(s, f)
                    }))
                &&& rep.accuracy_by_range@.len() <= 4
                &&& (forall|k: int|
                    0 <= k < rep.accuracy_by_range@.len() ==> ({
                        let f = crate::analytics::RecordFilter::ByRangeBand(
                            (#[trigger] rep.accuracy_by_range@[k]).lo_m,
                            rep.accuracy_by_range@[k].hi_m,
                        );
                        &&& rep.accuracy_by_range@[k].total_engagements
                            == crate::analytics::spec_count(s, f)
                        &&& rep.accuracy_by_range@[k].total_engagements > 0
                        &&& rep.accuracy_by_range@[k].hits == crate::analytics::spec_count_hits(
                            s,
                            f,
                        )
                    }))
            })),
    {
        let mission_summary = match convoy_id {
            Some(c) => {
                match self.mission_summary(c) {
                    Ok(ms) => ms,
                    Err(e) => {
                        return Err(e);
                    },
                }
            },
            None => None,
        };
        let top_performers = match self.top_performers(10) {
            Ok(v) => v,
            Err(e) => {
                return Err(e);
            },
        };
        let weapon_stats = match self.weapon_effectiveness(convoy_id) {
            Ok(v) => v,
            Err(e) => {
                return Err(e);
            },
        };
        let platform_comparison = match self.platform_comparison() {
            Ok(v) => v,
            Err(e) => {
                return Err(e);
            },
        };
        let accuracy_by_altitude = match self.accuracy_by_altitude() {
            Ok(v) => v,
            Err(e) => {
                return Err(e);
            },
        };
        let accuracy_by_range = match self.accuracy_by_range() {
            Ok(v) => v,
            Err(e) => {
                return Err(e);
            },
        };
        proof {
            if self.engagements@.len() == 0 {
                if top_performers@.len() > 0 {
                    assert(crate::analytics::spec_perf_ok(self.engagements@, top_performers@[0]));
                    assert(crate::analytics::spec_count(
                        self.engagements@,
                        crate::analytics::RecordFilter::ByDrone(top_performers@[0].drone_id),
                    ) == 0);
                }
                if weapon_stats@.len() > 0 {
                    assert(crate::analytics::spec_count(
                        self.engagements@,
                        crate::analytics::RecordFilter::ByWeapon(
                            convoy_id,
                            weapon_stats@[0].weapon_type,
                        ),
                    ) == 0);
                }
                if platform_comparison@.len() > 0 {
                    assert(crate::analytics::spec_count(
                        self.engagements@,
                        crate::analytics::RecordFilter::ByPlatform(
                            platform_comparison@[0].platform_type,
                        ),
                    ) == 0);
                }
                if accuracy_by_altitude@.len() > 0 {
                    assert(crate::analytics::spec_count(
                        self.engagements@,
                        crate::analytics::RecordFilter::ByAltitudeBand(
                            accuracy_by_altitude@[0].lo_m,
                            accuracy_by_altitude@[0].hi_m,
                        ),
                    ) == 0);
                }
                if accuracy_by_range@.len() > 0 {
                    assert(crate::analytics::spec_count(
                        self.engagements@,
                        crate::analytics::RecordFilter::ByRangeBand(
                            accuracy_by_range@[0].lo_m,
                            accuracy_by_range@[0].hi_m,
                        ),
                    ) == 0);
                }
            }
        }
        Ok(
            AnalyticsReport {
                generated_at_ms: now_ms,
                generated_at: format_rfc3339(now_ms),
                convoy_id,
                mission_summary,
                top_performers,
                weapon_stats,
                platform_comparison,
                accuracy_by_altitude,
                accuracy_by_range,
            },
        )
    }
}

// =============================================================================
// TABULAR TEXT FORM
// =============================================================================

/// Accuracy shown as hundredths with a percent sign.
pub open spec fn spec_md_pct(v: u64) -> Seq<char> {
    spec_hundredths_text(v as nat) + "%"@
}

/// A mean range in meters, or the not-available marker.
pub open spec fn spec_md_range(r: Option<u64>) -> Seq<char> {
    match r {
        Some(m) => spec_dec_digits(m as nat) + " m"@,
        None => "N/A"@,
    }
}

/// The label of an altitude or range band, from its bounds.
pub open spec fn spec_md_band_label(lo: Option<u64>, hi: Option<u64>) -> Seq<char> {
    match (lo, hi) {
        (None, Some(h)) => "< "@ + spec_dec_digits(h as nat) + " m"@,
        (Some(l), Some(h)) => spec_dec_digits(l as nat) + " - "@ + spec_dec_digits(h as nat)
            + " m"@,
        (Some(l), None) => ">= "@ + spec_dec_digits(l as nat) + " m"@,
        (None, None) => "all"@,
    }
}

/// The mission summary section.
pub open spec fn spec_md_summary(ms: &MissionSummary) -> Seq<char> {
    "## Mission Summary\n\n| Metric | Value |\n|--------|-------|\n| Total Drones | "@
        + spec_dec_digits(ms.total_drones as nat) + " |\n| Total Engagements | "@
        + spec_dec_digits(ms.total_engagements as nat) + " |\n| Total Hits | "@ + spec_dec_digits(
        ms.total_hits as nat,
    ) + " |\n| Accuracy | "@ + spec_md_pct(ms.accuracy_x100) + " |\n"@ + (match ms.top_performer {
        Some(ref cs) => "| Top Performer | "@ + cs@ + " |\n"@,
        None => Seq::<char>::empty(),
    }) + (match ms.most_used_weapon {
        Some(w) => "| Most Used Weapon | "@ + w.spec_name() + " |\n"@,
        None => Seq::<char>::empty(),
    }) + "\n"@
}

/// One top-performers row: rank, callsign, platform, counts, accuracy.
pub open spec fn spec_md_perf_row(p: &DronePerformance, rank: int) -> Seq<char> {
    "| "@ + spec_dec_digits(rank as nat) + " | "@ + p.callsign@ + " | "@
        + p.platform_type.spec_name() + " | "@ + spec_dec_digits(p.total_engagements as nat)
        + " | "@ + spec_dec_digits(p.hits as nat) + " | "@ + spec_md_pct(p.accuracy_x100)
        + " |\n"@
}

pub open spec fn spec_md_perf_rows(ps: Seq<DronePerformance>) -> Seq<char>
    decreases ps.len(),
{
    if ps.len() == 0 {
        Seq::empty()
    } else {
        spec_md_perf_rows(ps.drop_last()) + spec_md_perf_row(&ps.last(), ps.len() as int)
    }
}

/// One weapon-effectiveness row.
pub open spec fn spec_md_weapon_row(w: &WeaponStats) -> Seq<char> {
    "| "@ + w.weapon_type.spec_name() + " | "@ + spec_dec_digits(w.total_engagements as nat)
        + " | "@ + spec_dec_digits(w.hits as nat) + " | "@ + spec_md_pct(w.accuracy_x100) + " | "@
        + spec_md_range(w.avg_range_m) + " |\n"@
}

pub open spec fn spec_md_weapon_rows(ws: Seq<WeaponStats>) -> Seq<char>
    decreases ws.len(),
{
    if ws.len() == 0 {
        Seq::empty()
    } else {
        spec_md_weapon_rows(ws.drop_last()) + spec_md_weapon_row(&ws.last())
    }
}

/// One platform-comparison row.
pub open spec fn spec_md_platform_row(c: &PlatformComparison) -> Seq<char> {
    "| "@ + c.platform_type.spec_name() + " | "@ + spec_dec_digits(c.drone_count as nat) + " | "@
        + spec_dec_digits(c.total_engagements as nat) + " | "@ + spec_md_pct(c.accuracy_x100)
        + " | "@ + spec_hundredths_text(c.avg_engagements_x100 as nat) + " |\n"@
}

pub open spec fn spec_md_platform_rows(cs: Seq<PlatformComparison>) -> Seq<char>
    decreases cs.len(),
{
    if cs.len() == 0 {
        Seq::empty()
    } else {
        spec_md_platform_rows(cs.drop_last()) + spec_md_platform_row(&cs.last())
    }
}

/// One band row.
pub open spec fn spec_md_band_row(b: &BandAccuracy) -> Seq<char> {
    "| "@ + spec_md_band_label(b.lo_m, b.hi_m) + " | "@ + spec_md_pct(b.accuracy_x100) + " |\n"@
}

pub open spec fn spec_md_band_rows(bs: Seq<BandAccuracy>) -> Seq<char>
    decreases bs.len(),
{
    if bs.len() == 0 {
        Seq::empty()
    } else {
        spec_md_band_rows(bs.drop_last()) + spec_md_band_row(&bs.last())
    }
}

/// The whole tabular text report, to the character.
pub open spec fn spec_md_report(r: &AnalyticsReport) -> Seq<char> {
    "# Drone Convoy Analytics Report\n\n**Generated:** "@ + r.generated_at@ + "\n\n"@ + (
    match r.mission_summary {
        Some(ref ms) => spec_md_summary(ms),
        None => Seq::<char>::empty(),
    }) + (if r.top_performers@.len() > 0 {
        "## Top Performers\n\n| Rank | Callsign | Platform | Engagements | Hits | Accuracy |\n|------|----------|----------|-------------|------|----------|\n"@
            + spec_md_perf_rows(r.top_performers@) + "\n"@
    } else {
        Seq::<char>::empty()
    }) + (if r.weapon_stats@.len() > 0 {
        "## Weapon Effectiveness\n\n| Weapon | Engagements | Hits | Accuracy | Avg Range |\n|--------|-------------|------|----------|----------|\n"@
            + spec_md_weapon_rows(r.weapon_stats@) + "\n"@
    } else {
        Seq::<char>::empty()
    }) + (if r.platform_comparison@.len() > 0 {
        "## Platform Comparison\n\n| Platform | Drones | Engagements | Accuracy | Avg/Drone |\n|----------|--------|-------------|----------|----------|\n"@
            + spec_md_platform_rows(r.platform_comparison@) + "\n"@
    } else {
        Seq::<char>::empty()
    }) + (if r.accuracy_by_altitude@.len() > 0 {
        "## Accuracy by Altitude\n\n| Altitude Band | Accuracy |\n|---------------|----------|\n"@
            + spec_md_band_rows(r.accuracy_by_altitude@) + "\n"@
    } else {
        Seq::<char>::empty()
    }) + (if r.accuracy_by_range@.len() > 0 {
        "## Accuracy by Range\n\n| Range Band | Accuracy |\n|------------|----------|\n"@
            + spec_md_band_rows(r.accuracy_by_range@) + "\n"@
    } else {
        Seq::<char>::empty()
    }) + "---\n*Classification: UNCLASSIFIED // FOUO*\n"@
}

/// Accuracy with a percent sign.
fn md_pct(v: u64) -> (r: String)
    ensures
        r@ == spec_md_pct(v),
{
    let mut s = hundredths_to_string(v);
    s.append("%");
    s
}

/// A mean range, or the not-available marker.
fn md_range(r: &Option<u64>) -> (out: String)
    ensures
        out@ == spec_md_range(*r),
{
    match r {
        Some(m) => {
            let mut s = u64_to_string(*m);
            s.append(" m");
            s
        },
        None => String::from_str("N/A"),
    }
}

/// A band label from its bounds.
fn md_band_label(lo: &Option<u64>, hi: &Option<u64>) -> (out: String)
    ensures
        out@ == spec_md_band_label(*lo, *hi),
{
    match (lo, hi) {
        (None, Some(h)) => {
            let mut s = String::from_str("< ");
            let d = u64_to_string(*h);
            s.append(d.as_str());
            s.append(" m");
            s
        },
        (Some(l), Some(h)) => {
            let mut s = u64_to_string(*l);
            s.append(" - ");
            let d = u64_to_string(*h);
            s.append(d.as_str());
            s.append(" m");
            s
        },
        (Some(l), None) => {
            let mut s = String::from_str(">= ");
            let d = u64_to_string(*l);
            s.append(d.as_str());
            s.append(" m");
            s
        },
        (None, None) => String::from_str("all"),
    }
}

/// Append the mission-summary section.
#[verifier::rlimit(60)]
fn md_append_summary(md: &mut String, ms: &MissionSummary)
    ensures
        final(md)@ == old(md)@ + spec_md_summary(ms),
{
    md.append(
        "## Mission Summary\n\n| Metric | Value |\n|--------|-------|\n| Total Drones | ",
    );
    let d = u64_to_string(ms.total_drones);
    md.append(d.as_str());
    md.append(" |\n| Total Engagements | ");
    let d = u64_to_string(ms.total_engagements);
    md.append(d.as_str());
    md.append(" |\n| Total Hits | ");
    let d = u64_to_string(ms.total_hits);
    md.append(d.as_str());
    md.append(" |\n| Accuracy | ");
    let d = md_pct(ms.accuracy_x100);
    md.append(d.as_str());
    md.append(" |\n");
    match &ms.top_performer {
        Some(cs) => {
            md.append("| Top Performer | ");
            md.append(cs.as_str());
            md.append(" |\n");
        },
        None => {},
    }
    match &ms.most_used_weapon {
        Some(w) => {
            md.append("| Most Used Weapon | ");
            md.append(w.as_str());
            md.append(" |\n");
        },
        None => {},
    }
    md.append("\n");
    proof {
        assert(md@ =~= old(md)@ + spec_md_summary(ms));
    }
}

/// Append the top-performers section, when any performer is listed.
#[verifier::rlimit(60)]
fn md_append_performers(md: &mut String, ps: &Vec<DronePerformance>)
    ensures
        final(md)@ == old(md)@ + (if ps@.len() > 0 {
            "## Top Performers\n\n| Rank | Callsign | Platform | Engagements | Hits | Accuracy |\n|------|----------|----------|-------------|------|----------|\n"@
                + spec_md_perf_rows(ps@) + "\n"@
        } else {
            Seq::<char>::empty()
        }),
{
    if ps.len() == 0 {
        proof {
            assert(md@ =~= old(md)@ + Seq::<char>::empty());
        }
        return ;
    }
    md.append(
        "## Top Performers\n\n| Rank | Callsign | Platform | Engagements | Hits | Accuracy |\n|------|----------|----------|-------------|------|----------|\n",
    );
    let ghost head = md@;
    let mut i: usize = 0;
    while i < ps.len()
        invariant
            i <= ps@.len(),
            md@ == head + spec_md_perf_rows(ps@.subrange(0, i as int)),
        decreases ps@.len() - i,
    {
        let ghost pre = ps@.subrange(0, i as int);
        let ghost post = ps@.subrange(0, i + 1);
        proof {
            assert(post.drop_last() =~= pre);
            assert(post.last() == ps@[i as int]);
        }
        let p = &ps[i];
        md.append("| ");
        let d = u64_to_string((i + 1) as u64);
        md.append(d.as_str());
        md.append(" | ");
        md.append(p.callsign.as_str());
        md.append(" | ");
        md.append(p.platform_type.as_str());
        md.append(" | ");
        let d = u64_to_string(p.total_engagements);
        md.append(d.as_str());
        md.append(" | ");
        let d = u64_to_string(p.hits);
        md.append(d.as_str());
        md.append(" | ");
        let d = md_pct(p.accuracy_x100);
        md.append(d.as_str());
        md.append(" |\n");
        proof {
            assert(md@ =~= head + spec_md_perf_rows(post));
        }
        i += 1;
    }
    md.append("\n");
    proof {
        assert(ps@.subrange(0, ps@.len() as int) =~= ps@);
        assert(md@ =~= old(md)@ + (
        "## Top Performers\n\n| Rank | Callsign | Platform | Engagements | Hits | Accuracy |\n|------|----------|----------|-------------|------|----------|\n"@
            + spec_md_perf_rows(ps@) + "\n"@));
    }
}

/// Append the weapon-effectiveness section, when any weapon is listed.
#[verifier::rlimit(60)]
fn md_append_weapons(md: &mut String, ws: &Vec<WeaponStats>)
    ensures
        final(md)@ == old(md)@ + (if ws@.len() > 0 {
            "## Weapon Effectiveness\n\n| Weapon | Engagements | Hits | Accuracy | Avg Range |\n|--------|-------------|------|----------|----------|\n"@
                + spec_md_weapon_rows(ws@) + "\n"@
        } else {
            Seq::<char>::empty()
        }),
{
    if ws.len() == 0 {
        proof {
            assert(md@ =~= old(md)@ + Seq::<char>::empty());
        }
        return ;
    }
    md.append(
        "## Weapon Effectiveness\n\n| Weapon | Engagements | Hits | Accuracy | Avg Range |\n|--------|-------------|------|----------|----------|\n",
    );
    let ghost head = md@;
    let mut i: usize = 0;
    while i < ws.len()
        invariant
            i <= ws@.len(),
            md@ == head + spec_md_weapon_rows(ws@.subrange(0, i as int)),
        decreases ws@.len() - i,
    {
        let ghost pre = ws@.subrange(0, i as int);
        let ghost post = ws@.subrange(0, i + 1);
        proof {
            assert(post.drop_last() =~= pre);
            assert(post.last() == ws@[i as int]);
        }
        let w = &ws[i];
        md.append("| ");
        md.append(w.weapon_type.as_str());
        md.append(" | ");
        let d = u64_to_string(w.total_engagements);
        md.append(d.as_str());
        md.append(" | ");
        let d = u64_to_string(w.hits);
        md.append(d.as_str());
        md.append(" | ");
        let d = md_pct(w.accuracy_x100);
        md.append(d.as_str());
        md.append(" | ");
        let d = md_range(&w.avg_range_m);
        md.append(d.as_str());
        md.append(" |\n");
        proof {
            assert(md@ =~= head + spec_md_weapon_rows(post));
        }
        i += 1;
    }
    md.append("\n");
    proof {
        assert(ws@.subrange(0, ws@.len() as int) =~= ws@);
        assert(md@ =~= old(md)@ + (
        "## Weapon Effectiveness\n\n| Weapon | Engagements | Hits | Accuracy | Avg Range |\n|--------|-------------|------|----------|----------|\n"@
            + spec_md_weapon_rows(ws@) + "\n"@));
    }
}

/// Append the platform-comparison section, when any platform is listed.
#[verifier::rlimit(60)]
fn md_append_platforms(md: &mut String, cs: &Vec<PlatformComparison>)
    ensures
        final(md)@ == old(md)@ + (if cs@.len() > 0 {
            "## Platform Comparison\n\n| Platform | Drones | Engagements | Accuracy | Avg/Drone |\n|----------|--------|-------------|----------|----------|\n"@
                + spec_md_platform_rows(cs@) + "\n"@
        } else {
            Seq::<char>::empty()
        }),
{
    if cs.len() == 0 {
        proof {
            assert(md@ =~= old(md)@ + Seq::<char>::empty());
        }
        return ;
    }
    md.append(
        "## Platform Comparison\n\n| Platform | Drones | Engagements | Accuracy | Avg/Drone |\n|----------|--------|-------------|----------|----------|\n",
    );
    let ghost head = md@;
    let mut i: usize = 0;
    while i < cs.len()
        invariant
            i <= cs@.len(),
            md@ == head + spec_md_platform_rows(cs@.subrange(0, i as int)),
        decreases cs@.len() - i,
    {
        let ghost pre = cs@.subrange(0, i as int);
        let ghost post = cs@.subrange(0, i + 1);
        proof {
            assert(post.drop_last() =~= pre);
            assert(post.last() == cs@[i as int]);
        }
        let c = &cs[i];
        md.append("| ");
        md.append(c.platform_type.as_str());
        md.append(" | ");
        let d = u64_to_string(c.drone_count);
        md.append(d.as_str());
        md.append(" | ");
        let d = u64_to_string(c.total_engagements);
        md.append(d.as_str());
        md.append(" | ");
        let d = md_pct(c.accuracy_x100);
        md.append(d.as_str());
        md.append(" | ");
        let d = hundredths_to_string_u128(c.avg_engagements_x100);
        md.append(d.as_str());
        md.append(" |\n");
        proof {
            assert(md@ =~= head + spec_md_platform_rows(post));
        }
        i += 1;
    }
    md.append("\n");
    proof {
        assert(cs@.subrange(0, cs@.len() as int) =~= cs@);
        assert(md@ =~= old(md)@ + (
        "## Platform Comparison\n\n| Platform | Drones | Engagements | Accuracy | Avg/Drone |\n|----------|--------|-------------|----------|----------|\n"@
            + spec_md_platform_rows(cs@) + "\n"@));
    }
}

/// Append one band section under the given head, when any band is listed.
#[verifier::rlimit(60)]
fn md_append_bands(md: &mut String, head_text: &str, bs: &Vec<BandAccuracy>)
    ensures
        final(md)@ == old(md)@ + (if bs@.len() > 0 {
            head_text@ + spec_md_band_rows(bs@) + "\n"@
        } else {
            Seq::<char>::empty()
        }),
{
    if bs.len() == 0 {
        proof {
            assert(md@ =~= old(md)@ + Seq::<char>::empty());
        }
        return ;
    }
    md.append(head_text);
    let ghost head = md@;
    let mut i: usize = 0;
    while i < bs.len()
        invariant
            i <= bs@.len(),
            md@ == head + spec_md_band_rows(bs@.subrange(0, i as int)),
        decreases bs@.len() - i,
    {
        let ghost pre = bs@.subrange(0, i as int);
        let ghost post = bs@.subrange(0, i + 1);
        proof {
            assert(post.drop_last() =~= pre);
            assert(post.last() == bs@[i as int]);
        }
        let b = &bs[i];
        md.append("| ");
        let d = md_band_label(&b.lo_m, &b.hi_m);
        md.append(d.as_str());
        md.append(" | ");
        let d = md_pct(b.accuracy_x100);
        md.append(d.as_str());
        md.append(" |\n");
        proof {
            assert(md@ =~= head + spec_md_band_rows(post));
        }
        i += 1;
    }
    md.append("\n");
    proof {
        assert(bs@.subrange(0, bs@.len() as int) =~= bs@);
        assert(md@ =~= old(md)@ + (head_text@ + spec_md_band_rows(bs@) + "\n"@));
    }
}

impl AnalyticsEngine {
    /// Render the report in its tabular text form, to the character of the
    /// specification: fixed section order and the classification footer.
    pub fn generate_report_markdown(&self, report: &AnalyticsReport) -> (md: String)
        ensures
            md@ == spec_md_report(report),
    {
        let mut md = String::from_str("# Drone Convoy Analytics Report\n\n**Generated:** ");
        md.append(report.generated_at.as_str());
        md.append("\n\n");
        let ghost base0 = md@;
        match &report.mission_summary {
            Some(ms) => {
                md_append_summary(&mut md, ms);
            },
            None => {
                proof {
                    assert(md@ =~= base0 + Seq::<char>::empty());
                }
            },
        }
        md_append_performers(&mut md, &report.top_performers);
        md_append_weapons(&mut md, &report.weapon_stats);
        md_append_platforms(&mut md, &report.platform_comparison);
        md_append_bands(
            &mut md,
            "## Accuracy by Altitude\n\n| Altitude Band | Accuracy |\n|---------------|----------|\n",
            &report.accuracy_by_altitude,
        );
        md_append_bands(
            &mut md,
            "## Accuracy by Range\n\n| Range Band | Accuracy |\n|------------|----------|\n",
            &report.accuracy_by_range,
        );
        md.append("---\n*Classification: UNCLASSIFIED // FOUO*\n");
        proof {
            assert(md@ =~= spec_md_report(report));
        }
        md
    }
}

} // verus!
