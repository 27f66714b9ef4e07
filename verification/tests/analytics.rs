use drone_ops::analytics::{
    AnalyticsEngine, EngagementRecord, TrendInterval,
};
use drone_ops::domain::{PlatformType, TargetType, WeaponType};

fn record(id: u128, drone: u128, hit: bool) -> EngagementRecord {
    EngagementRecord {
        engagement_id: id,
        convoy_id: 0xc1,
        drone_id: drone,
        callsign: String::from("REAPER-01"),
        platform_type: PlatformType::Mq9Reaper,
        hit,
        weapon_type: WeaponType::Agm114Hellfire,
        target_type: Some(TargetType::Vehicle),
        range_m: Some(5_500),
        altitude_m: Some(5_000),
        timestamp_ms: 0,
    }
}

#[test]
fn test_create_engine() {
    let engine = AnalyticsEngine::new_in_memory().unwrap();
    assert!(engine.top_performers(10).unwrap().is_empty());
}

#[test]
fn test_ingest_and_query() {
    let mut engine = AnalyticsEngine::new_in_memory().unwrap();
    engine.ingest_engagement(&record(1, 0xa1, true)).unwrap();
    let weapons = engine.weapon_effectiveness(None).unwrap();
    assert_eq!(weapons.len(), 1);
    assert_eq!(weapons[0].weapon_type, WeaponType::Agm114Hellfire);
    assert_eq!(weapons[0].accuracy_x100, 10000);
}

#[test]
fn test_empty_report() {
    let engine = AnalyticsEngine::new_in_memory().unwrap();
    let report = engine.generate_report(None, 0).unwrap();
    assert!(report.top_performers.is_empty());
    assert!(report.weapon_stats.is_empty());
}

#[test]
fn test_markdown_generation() {
    let engine = AnalyticsEngine::new_in_memory().unwrap();
    let report = engine.generate_report(None, 0).unwrap();
    let md = engine.generate_report_markdown(&report);
    assert!(md.contains("# Drone Convoy Analytics Report"));
}

#[test]
fn ingestion_is_idempotent_in_the_engagement_id() {
    let mut engine = AnalyticsEngine::new_in_memory().unwrap();
    engine.ingest_engagement(&record(1, 0xa1, true)).unwrap();
    engine.ingest_engagement(&record(1, 0xa1, true)).unwrap();
    let weapons = engine.weapon_effectiveness(None).unwrap();
    assert_eq!(weapons.len(), 1);
    assert_eq!(weapons[0].total_engagements, 1);
}

#[test]
fn weapon_effectiveness_orders_by_accuracy() {
    let mut engine = AnalyticsEngine::new_in_memory().unwrap();
    // Two weapons: one perfect, one half.
    engine.ingest_engagement(&record(1, 0xa1, true)).unwrap();
    let mut miss = record(2, 0xa1, false);
    miss.weapon_type = WeaponType::Gbu12Paveway;
    engine.ingest_engagement(&miss).unwrap();
    let mut hit = record(3, 0xa1, true);
    hit.weapon_type = WeaponType::Gbu12Paveway;
    engine.ingest_engagement(&hit).unwrap();
    let weapons = engine.weapon_effectiveness(None).unwrap();
    assert_eq!(weapons.len(), 2);
    assert_eq!(weapons[0].weapon_type, WeaponType::Agm114Hellfire);
    assert_eq!(weapons[0].accuracy_x100, 10000);
    assert_eq!(weapons[0].avg_range_m, Some(5_500));
    assert_eq!(weapons[1].weapon_type, WeaponType::Gbu12Paveway);
    assert_eq!(weapons[1].accuracy_x100, 5000);
}

#[test]
fn top_performers_require_five_engagements() {
    let mut engine = AnalyticsEngine::new_in_memory().unwrap();
    for i in 0..5u128 {
        engine.ingest_engagement(&record(i, 0xa1, i != 0)).unwrap();
    }
    // A second asset with too few engagements stays out.
    engine.ingest_engagement(&record(100, 0xa2, true)).unwrap();
    let top = engine.top_performers(10).unwrap();
    assert_eq!(top.len(), 1);
    assert_eq!(top[0].drone_id, 0xa1);
    assert_eq!(top[0].total_engagements, 5);
    assert_eq!(top[0].hits, 4);
    assert_eq!(top[0].accuracy_x100, 8000);
    assert_eq!(top[0].callsign, "REAPER-01");
}

#[test]
fn hourly_distribution_buckets_by_hour_of_day() {
    let mut engine = AnalyticsEngine::new_in_memory().unwrap();
    let mut early = record(1, 0xa1, true);
    early.timestamp_ms = 30 * 60 * 1000; // 00:30
    engine.ingest_engagement(&early).unwrap();
    let mut late = record(2, 0xa1, false);
    late.timestamp_ms = 23 * 3_600_000 + 15 * 60 * 1000; // 23:15
    engine.ingest_engagement(&late).unwrap();
    let hours = engine.hourly_distribution().unwrap();
    assert_eq!(hours.len(), 2);
    assert_eq!(hours[0].hour, 0);
    assert_eq!(hours[0].total_engagements, 1);
    assert_eq!(hours[0].accuracy_x100, 10000);
    assert_eq!(hours[1].hour, 23);
    assert_eq!(hours[1].accuracy_x100, 0);
}

#[test]
fn altitude_and_range_bands_partition_the_records() {
    let mut engine = AnalyticsEngine::new_in_memory().unwrap();
    let mut low = record(1, 0xa1, true);
    low.altitude_m = Some(1_000);
    low.range_m = Some(1_500);
    engine.ingest_engagement(&low).unwrap();
    let mut high = record(2, 0xa1, false);
    high.altitude_m = Some(8_000);
    high.range_m = Some(12_000);
    engine.ingest_engagement(&high).unwrap();
    let alt = engine.accuracy_by_altitude().unwrap();
    assert_eq!(alt.len(), 2);
    assert_eq!(alt[0].lo_m, None);
    assert_eq!(alt[0].hi_m, Some(3_000));
    assert_eq!(alt[0].accuracy_x100, 10000);
    assert_eq!(alt[1].lo_m, Some(7_000));
    assert_eq!(alt[1].hi_m, None);
    assert_eq!(alt[1].accuracy_x100, 0);
    let rng = engine.accuracy_by_range().unwrap();
    assert_eq!(rng.len(), 2);
    assert_eq!(rng[0].hi_m, Some(2_000));
    assert_eq!(rng[1].lo_m, Some(10_000));
}

#[test]
fn platform_comparison_counts_distinct_assets() {
    let mut engine = AnalyticsEngine::new_in_memory().unwrap();
    engine.ingest_engagement(&record(1, 0xa1, true)).unwrap();
    engine.ingest_engagement(&record(2, 0xa2, false)).unwrap();
    let mut other = record(3, 0xa3, true);
    other.platform_type = PlatformType::Rq4GlobalHawk;
    engine.ingest_engagement(&other).unwrap();
    let cmp = engine.platform_comparison().unwrap();
    assert_eq!(cmp.len(), 2);
    assert_eq!(cmp[0].platform_type, PlatformType::Mq9Reaper);
    assert_eq!(cmp[0].drone_count, 2);
    assert_eq!(cmp[0].total_engagements, 2);
    assert_eq!(cmp[0].accuracy_x100, 5000);
    assert_eq!(cmp[0].avg_engagements_x100, 100);
    assert_eq!(cmp[1].platform_type, PlatformType::Rq4GlobalHawk);
    assert_eq!(cmp[1].drone_count, 1);
}

#[test]
fn mission_summary_aggregates_the_convoy() {
    let mut engine = AnalyticsEngine::new_in_memory().unwrap();
    assert!(engine.mission_summary(0xc1).unwrap().is_none());
    engine.ingest_engagement(&record(1, 0xa1, true)).unwrap();
    engine.ingest_engagement(&record(2, 0xa1, true)).unwrap();
    let mut weak = record(3, 0xa2, false);
    weak.callsign = String::from("REAPER-02");
    engine.ingest_engagement(&weak).unwrap();
    let ms = engine.mission_summary(0xc1).unwrap().unwrap();
    assert_eq!(ms.total_drones, 2);
    assert_eq!(ms.total_engagements, 3);
    assert_eq!(ms.total_hits, 2);
    assert_eq!(ms.accuracy_x100, 6667);
    assert_eq!(ms.top_performer.as_deref(), Some("REAPER-01"));
    assert_eq!(ms.most_used_weapon, Some(WeaponType::Agm114Hellfire));
}

#[test]
fn engagement_counts_group_by_day_within_the_window() {
    let mut engine = AnalyticsEngine::new_in_memory().unwrap();
    engine.ingest_engagement(&record(1, 0xa1, true)).unwrap();
    let mut next_day = record(2, 0xa1, true);
    next_day.timestamp_ms = 86_400_000 + 1;
    engine.ingest_engagement(&next_day).unwrap();
    let mut outside = record(3, 0xa1, true);
    outside.timestamp_ms = 10 * 86_400_000;
    engine.ingest_engagement(&outside).unwrap();
    let days = engine
        .engagement_counts_by_date(0, 2 * 86_400_000)
        .unwrap();
    assert_eq!(days.len(), 2);
    assert_eq!(days[0].day_index, 0);
    assert_eq!(days[0].label, "1970-01-01");
    assert_eq!(days[0].count, 1);
    assert_eq!(days[1].day_index, 1);
    assert_eq!(days[1].label, "1970-01-02");
}

#[test]
fn accuracy_trend_buckets_by_day_or_hour() {
    let mut engine = AnalyticsEngine::new_in_memory().unwrap();
    engine.ingest_engagement(&record(1, 0xa1, true)).unwrap();
    let mut later = record(2, 0xa1, false);
    later.timestamp_ms = 3_600_000 + 5;
    engine.ingest_engagement(&later).unwrap();
    let by_hour = engine.accuracy_trend(0xa1, TrendInterval::Hour).unwrap();
    assert_eq!(by_hour.len(), 2);
    assert_eq!(by_hour[0].label, "1970010100");
    assert_eq!(by_hour[0].accuracy_x100, 10000);
    assert_eq!(by_hour[1].label, "1970010101");
    assert_eq!(by_hour[1].accuracy_x100, 0);
    let by_day = engine.accuracy_trend(0xa1, TrendInterval::Day).unwrap();
    assert_eq!(by_day.len(), 1);
    assert_eq!(by_day[0].label, "1970-01-01");
    assert_eq!(by_day[0].total_engagements, 2);
    assert_eq!(by_day[0].accuracy_x100, 5000);
}

#[test]
fn the_markdown_report_lists_every_section_in_order() {
    let mut engine = AnalyticsEngine::new_in_memory().unwrap();
    for i in 0..5u128 {
        engine.ingest_engagement(&record(i, 0xa1, true)).unwrap();
    }
    let report = engine.generate_report(Some(0xc1), 0).unwrap();
    assert_eq!(report.generated_at, "1970-01-01T00:00:00+00:00");
    let md = engine.generate_report_markdown(&report);
    let title = md.find("# Drone Convoy Analytics Report").unwrap();
    let summary = md.find("## Mission Summary").unwrap();
    let top = md.find("## Top Performers").unwrap();
    let weapons = md.find("## Weapon Effectiveness").unwrap();
    let platforms = md.find("## Platform Comparison").unwrap();
    let alt = md.find("## Accuracy by Altitude").unwrap();
    let rng = md.find("## Accuracy by Range").unwrap();
    let footer = md.find("*Classification: UNCLASSIFIED // FOUO*").unwrap();
    assert!(title < summary);
    assert!(summary < top);
    assert!(top < weapons);
    assert!(weapons < platforms);
    assert!(platforms < alt);
    assert!(alt < rng);
    assert!(rng < footer);
    assert!(md.contains("| REAPER-01 |"));
    assert!(md.contains("100.00%"));
}

#[test]
fn batch_ingestion_matches_per_record_ingestion() {
    let mut one_by_one = AnalyticsEngine::new_in_memory().unwrap();
    let mut batched = AnalyticsEngine::new_in_memory().unwrap();
    // A duplicate id inside the batch is skipped, still counted as offered.
    let records = vec![
        record(1, 0xa1, true),
        record(2, 0xa1, false),
        record(1, 0xa1, true),
        record(3, 0xa2, true),
    ];
    for r in &records {
        one_by_one.ingest_engagement(&r.duplicate()).unwrap();
    }
    assert_eq!(batched.ingest_engagements_batch(&records).unwrap(), 4);
    assert_eq!(batched.engagements.len(), 3);
    assert_eq!(one_by_one.engagements.len(), 3);
    let a = one_by_one.weapon_effectiveness(None).unwrap();
    let b = batched.weapon_effectiveness(None).unwrap();
    assert_eq!(a.len(), b.len());
    assert_eq!(a[0].total_engagements, b[0].total_engagements);
    assert_eq!(a[0].hits, b[0].hits);
}
