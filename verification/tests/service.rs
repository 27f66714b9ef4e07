use drone_ops::api::{
    ApiContext, LeaderboardFilter, MutationRoot, PaginationInput, QueryRoot,
    RecordEngagementInput, SubscriptionRoot, UpdateBdaInput, UpdateConvoyStatusInput,
};
use drone_ops::broker::{AlertEvent, SUBSCRIBER_BUFFER};
use drone_ops::domain::{
    AlertSeverity, Coordinates, ConvoyStatus, DamageAssessment, DroneStatus, MissionType,
    PlatformType, WeaponType,
};
use drone_ops::entities::{Convoy, Drone, Telemetry, Waypoint};
use drone_ops::domain::{WaypointStatus, WaypointType};
use drone_ops::strategy::ReadStrategy;

const C1: &str = "00000000-0000-0000-0000-0000000000c1";
const C2: &str = "00000000-0000-0000-0000-0000000000c2";
const A1: &str = "00000000-0000-0000-0000-0000000000a1";
const A2: &str = "00000000-0000-0000-0000-0000000000a2";

fn record_input(convoy: &str, drone: &str, hit: bool) -> RecordEngagementInput {
    RecordEngagementInput {
        convoy_id: String::from(convoy),
        drone_id: String::from(drone),
        hit,
        weapon_type: None,
        target_type: None,
        range_m: None,
    }
}

#[test]
fn empty_state_ranking_is_empty_with_zero_aggregates() {
    let mut ctx = ApiContext::new();
    let q = QueryRoot::new();
    let lb = q
        .get_leaderboard(&mut ctx, "00000000-0000-0000-0000-000000000001", 10, None, 0)
        .unwrap();
    assert!(lb.entries.is_empty());
    assert_eq!(lb.total_drones, 0);
    assert_eq!(lb.average_accuracy_x100, 0);
    assert!(lb.leader.is_none());
    assert_eq!(lb.total_engagements, 0);
    assert_eq!(lb.total_hits, 0);
}

#[test]
fn two_hits_and_one_miss_yield_the_expected_entry() {
    let mut ctx = ApiContext::new();
    let m = MutationRoot::new();
    let q = QueryRoot::new();
    m.record_engagement(&mut ctx, &record_input(C1, A1, true), 1).unwrap();
    m.record_engagement(&mut ctx, &record_input(C1, A1, true), 2).unwrap();
    let res = m.record_engagement(&mut ctx, &record_input(C1, A1, false), 3).unwrap();
    assert_eq!(res.entry.stats.total_engagements, 3);
    assert_eq!(res.entry.stats.successful_hits, 2);
    assert_eq!(res.entry.accuracy_x100, 6667);
    assert_eq!(res.entry.stats.current_streak, 0);
    assert_eq!(res.entry.stats.best_streak, 2);
    let lb = q.get_leaderboard(&mut ctx, C1, 10, None, 4).unwrap();
    assert_eq!(lb.entries.len(), 1);
    assert_eq!(lb.entries[0].rank, 1);
    assert_eq!(lb.entries[0].accuracy_x100, 6667);
}

#[test]
fn ties_break_by_ascending_asset_id() {
    let mut ctx = ApiContext::new();
    let m = MutationRoot::new();
    let q = QueryRoot::new();
    m.record_engagement(&mut ctx, &record_input(C1, A2, true), 1).unwrap();
    m.record_engagement(&mut ctx, &record_input(C1, A1, true), 2).unwrap();
    let lb = q.get_leaderboard(&mut ctx, C1, 10, None, 3).unwrap();
    assert_eq!(lb.entries.len(), 2);
    assert_eq!(lb.entries[0].drone_id, 0xa1);
    assert_eq!(lb.entries[0].rank, 1);
    assert_eq!(lb.entries[1].drone_id, 0xa2);
    assert_eq!(lb.entries[1].rank, 2);
}

#[test]
fn subscription_filter_keeps_only_the_matching_convoy() {
    let mut ctx = ApiContext::new();
    let m = MutationRoot::new();
    let s = SubscriptionRoot::new();
    let sub1 = s.engagement_events(&mut ctx);
    let sub2 = s.engagement_events(&mut ctx);
    m.record_engagement(&mut ctx, &record_input(C1, A1, true), 1).unwrap();
    let got1 = s.poll_engagement_events(&mut ctx, sub1, 0xc1);
    assert_eq!(got1.len(), 1);
    assert_eq!(got1[0].convoy_id, 0xc1);
    assert!(got1[0].hit);
    let got2 = s.poll_engagement_events(&mut ctx, sub2, 0xc2);
    assert_eq!(got2.len(), 0);
}

#[test]
fn every_matching_subscriber_receives_exactly_one_event_per_mutation() {
    let mut ctx = ApiContext::new();
    let m = MutationRoot::new();
    let s = SubscriptionRoot::new();
    let sub_e = s.engagement_events(&mut ctx);
    let sub_l = s.leaderboard_updates(&mut ctx);
    m.record_engagement(&mut ctx, &record_input(C1, A1, true), 1).unwrap();
    assert_eq!(s.poll_engagement_events(&mut ctx, sub_e, 0xc1).len(), 1);
    assert_eq!(s.poll_leaderboard_updates(&mut ctx, sub_l, 0xc1).len(), 1);
    // Nothing more is delivered until the next mutation.
    assert_eq!(s.poll_engagement_events(&mut ctx, sub_e, 0xc1).len(), 0);
}

#[test]
fn a_slow_subscriber_is_dropped_on_overflow() {
    let mut ctx = ApiContext::new();
    let s = SubscriptionRoot::new();
    let sub = s.engagement_events(&mut ctx);
    let event = drone_ops::broker::EngagementEvent {
        convoy_id: 1,
        drone_id: 2,
        callsign: String::from("X"),
        hit: true,
        weapon_type: WeaponType::Agm114Hellfire,
        new_accuracy_x100: 10000,
        timestamp_ms: 0,
    };
    for _ in 0..SUBSCRIBER_BUFFER {
        ctx.engagement_topic.publish(&event);
    }
    assert!(ctx.engagement_topic.is_open(sub));
    ctx.engagement_topic.publish(&event);
    assert!(!ctx.engagement_topic.is_open(sub));
    // The dropped subscriber's buffer is released.
    assert_eq!(s.poll_all_engagement_events(&mut ctx, sub).len(), 0);
}

#[test]
fn alerts_respect_the_minimum_severity() {
    let mut ctx = ApiContext::new();
    let s = SubscriptionRoot::new();
    let sub = s.alerts(&mut ctx);
    for (i, sev) in [AlertSeverity::Info, AlertSeverity::Warning, AlertSeverity::Critical]
        .iter()
        .enumerate()
    {
        ctx.alert_topic.publish(&AlertEvent {
            alert_id: i as u128,
            convoy_id: 0xc1,
            drone_id: None,
            severity: *sev,
            alert_type: String::from("FUEL"),
            message: String::from("check"),
            timestamp_ms: 0,
        });
    }
    let got = s.poll_alerts(&mut ctx, sub, 0xc1, Some(AlertSeverity::Warning));
    assert_eq!(got.len(), 2);
    assert!(got.iter().all(|a| a.severity != AlertSeverity::Info));
}

#[test]
fn heartbeat_emits_at_most_once_per_second() {
    let mut ctx = ApiContext::new();
    let s = SubscriptionRoot::new();
    assert!(s.heartbeat_tick(&mut ctx, 0));
    assert!(!s.heartbeat_tick(&mut ctx, 500));
    assert!(!s.heartbeat_tick(&mut ctx, 999));
    assert!(s.heartbeat_tick(&mut ctx, 1000));
    assert!(!s.heartbeat_tick(&mut ctx, 1999));
    assert!(s.heartbeat_tick(&mut ctx, 2500));
}

#[test]
fn write_through_update_reads_back_from_the_cold_tier() {
    let mut ctx = ApiContext::new();
    let m = MutationRoot::new();
    let q = QueryRoot::new();
    let res = m.record_engagement(&mut ctx, &record_input(C1, A1, true), 1).unwrap();
    ctx.leaderboard_repo.set_read_strategy(ReadStrategy::DbOnly);
    let lb = q.get_leaderboard(&mut ctx, C1, 10, None, 2).unwrap();
    assert_eq!(lb.entries.len(), 1);
    assert_eq!(lb.entries[0].accuracy_x100, res.new_accuracy_x100);
}

#[test]
fn cache_first_reads_survive_a_hot_tier_outage() {
    let mut ctx = ApiContext::new();
    let m = MutationRoot::new();
    let q = QueryRoot::new();
    m.record_engagement(&mut ctx, &record_input(C1, A1, true), 1).unwrap();
    ctx.store.hot.set_available(false);
    let lb = q.get_leaderboard(&mut ctx, C1, 10, None, 2).unwrap();
    assert_eq!(lb.entries.len(), 1);
    assert_eq!(lb.entries[0].accuracy_x100, 10000);
}

#[test]
fn malformed_ids_are_rejected_without_effect() {
    let mut ctx = ApiContext::new();
    let m = MutationRoot::new();
    let q = QueryRoot::new();
    let err = m
        .record_engagement(&mut ctx, &record_input("nope", A1, true), 1)
        .unwrap_err();
    assert_eq!(err.error_code(), "INVALID_UUID");
    let err = q.get_leaderboard(&mut ctx, "nope", 10, None, 0).unwrap_err();
    assert_eq!(err.error_code(), "INVALID_UUID");
    let err = q.get_leaderboard(&mut ctx, C1, 101, None, 0).unwrap_err();
    assert_eq!(err.error_code(), "INVALID_INPUT");
}

#[test]
fn ranking_filter_drops_entries_below_the_floor() {
    let mut ctx = ApiContext::new();
    let m = MutationRoot::new();
    let q = QueryRoot::new();
    m.record_engagement(&mut ctx, &record_input(C1, A1, true), 1).unwrap();
    m.record_engagement(&mut ctx, &record_input(C1, A2, false), 2).unwrap();
    let filter = LeaderboardFilter {
        min_accuracy_x100: Some(5000),
        min_engagements: None,
        platform_type: None,
    };
    let lb = q.get_leaderboard(&mut ctx, C1, 10, Some(filter), 3).unwrap();
    assert_eq!(lb.entries.len(), 1);
    assert_eq!(lb.entries[0].drone_id, 0xa1);
}

#[test]
fn record_engagement_uses_the_stored_asset_identity() {
    let mut ctx = ApiContext::new();
    let m = MutationRoot::new();
    m.create_convoy(
        &mut ctx,
        &Convoy {
            convoy_id: 0xc1,
            callsign: String::from("ALPHA-CONVOY"),
            mission_type: MissionType::Strike,
            status: ConvoyStatus::Planning,
            aor_name: String::from("Sector North"),
            aor_center: Coordinates::default(),
            aor_radius_km: 150,
            commanding_unit: String::from("432nd Wing"),
            authorization_level: String::from("LEVEL-4"),
            roe_profile: String::from("standard"),
            drone_ids: vec![0xa1],
            created_at_ms: 0,
            mission_start_ms: None,
            mission_end_ms: None,
        },
    )
    .unwrap();
    ctx.drone_repo
        .create(
            &mut ctx.store,
            &Drone {
                convoy_id: 0xc1,
                drone_id: 0xa1,
                tail_number: String::from("AF-001"),
                callsign: String::from("REAPER-01"),
                platform_type: PlatformType::Mq9Reaper,
                status: DroneStatus::Airborne,
                current_position: Coordinates::default(),
                fuel_pct: 80,
                total_engagements: 0,
                successful_hits: 0,
                current_waypoint: 1,
                total_waypoints: 25,
                created_at_ms: 0,
                updated_at_ms: 0,
            },
        )
        .unwrap();
    let res = m.record_engagement(&mut ctx, &record_input(C1, A1, true), 5).unwrap();
    assert_eq!(res.entry.callsign, "REAPER-01");
    assert_eq!(res.entry.platform_type, PlatformType::Mq9Reaper);
}

#[test]
fn create_engagement_persists_to_both_mirrors_with_bda_pending_on_hit() {
    let mut ctx = ApiContext::new();
    let m = MutationRoot::new();
    let q = QueryRoot::new();
    let e = m
        .create_engagement(
            &mut ctx,
            &record_input(C1, A1, true),
            0xe1,
            Coordinates::default(),
            Coordinates::default(),
            111_190,
            "AUTH-7",
            true,
            9,
        )
        .unwrap();
    assert_eq!(e.damage_assessment, DamageAssessment::PendingBda);
    assert_eq!(e.range_m, 111_190);
    let by_convoy = q
        .get_engagements(&mut ctx, C1, PaginationInput::default())
        .unwrap();
    assert_eq!(by_convoy.len(), 1);
    assert_eq!(by_convoy[0].engagement_id, 0xe1);
    let by_drone = q
        .get_drone_engagements(&mut ctx, A1, PaginationInput::default())
        .unwrap();
    assert_eq!(by_drone.len(), 1);
    // A miss is stored as MISSED.
    let e2 = m
        .create_engagement(
            &mut ctx,
            &record_input(C1, A1, false),
            0xe2,
            Coordinates::default(),
            Coordinates::default(),
            5_500,
            "AUTH-8",
            true,
            10,
        )
        .unwrap();
    assert_eq!(e2.damage_assessment, DamageAssessment::Missed);
    // Newest first.
    let by_convoy = q
        .get_engagements(&mut ctx, C1, PaginationInput::default())
        .unwrap();
    assert_eq!(by_convoy[0].engagement_id, 0xe2);
    assert_eq!(by_convoy[1].engagement_id, 0xe1);
}

#[test]
fn bda_updates_touch_only_the_assessment_fields() {
    let mut ctx = ApiContext::new();
    let m = MutationRoot::new();
    m.create_engagement(
        &mut ctx,
        &record_input(C1, A1, true),
        0xe1,
        Coordinates::default(),
        Coordinates::default(),
        1000,
        "AUTH-7",
        true,
        1,
    )
    .unwrap();
    let updated = m
        .update_bda(
            &mut ctx,
            &UpdateBdaInput {
                convoy_id: String::from(C1),
                engagement_id: String::from("00000000-0000-0000-0000-0000000000e1"),
                damage_assessment: DamageAssessment::Destroyed,
                notes: Some(String::from("confirmed")),
            },
        )
        .unwrap();
    assert_eq!(updated.damage_assessment, DamageAssessment::Destroyed);
    assert_eq!(updated.bda_notes.as_deref(), Some("confirmed"));
    assert_eq!(updated.range_m, 1000);
    let missing = m.update_bda(
        &mut ctx,
        &UpdateBdaInput {
            convoy_id: String::from(C1),
            engagement_id: String::from("00000000-0000-0000-0000-0000000000ee"),
            damage_assessment: DamageAssessment::Damaged,
            notes: None,
        },
    );
    assert_eq!(missing.unwrap_err().error_code(), "NOT_FOUND");
}

#[test]
fn convoy_status_mutations_enforce_the_transition_chain() {
    let mut ctx = ApiContext::new();
    let m = MutationRoot::new();
    let q = QueryRoot::new();
    m.create_convoy(
        &mut ctx,
        &Convoy {
            convoy_id: 0xc1,
            callsign: String::from("ALPHA"),
            mission_type: MissionType::Isr,
            status: ConvoyStatus::Planning,
            aor_name: String::from("Sector North"),
            aor_center: Coordinates::default(),
            aor_radius_km: 50,
            commanding_unit: String::from("HQ"),
            authorization_level: String::from("LEVEL-4"),
            roe_profile: String::from("standard"),
            drone_ids: Vec::new(),
            created_at_ms: 0,
            mission_start_ms: None,
            mission_end_ms: None,
        },
    )
    .unwrap();
    assert!(q.get_active_convoys(&ctx).is_empty());
    m.update_convoy_status(
        &mut ctx,
        &UpdateConvoyStatusInput { convoy_id: String::from(C1), status: ConvoyStatus::Active },
    )
    .unwrap();
    let active = q.get_active_convoys(&ctx);
    assert_eq!(active.len(), 1);
    assert_eq!(active[0].callsign, "ALPHA");
    let bad = m.update_convoy_status(
        &mut ctx,
        &UpdateConvoyStatusInput { convoy_id: String::from(C1), status: ConvoyStatus::Complete },
    );
    assert_eq!(bad.unwrap_err().error_code(), "INVALID_INPUT");
    let missing = m.update_convoy_status(
        &mut ctx,
        &UpdateConvoyStatusInput { convoy_id: String::from(C2), status: ConvoyStatus::Active },
    );
    assert_eq!(missing.unwrap_err().error_code(), "NOT_FOUND");
}

#[test]
fn drone_state_updates_fan_out_a_status_change() {
    let mut ctx = ApiContext::new();
    let m = MutationRoot::new();
    let s = SubscriptionRoot::new();
    ctx.drone_repo
        .create(
            &mut ctx.store,
            &Drone {
                convoy_id: 0xc1,
                drone_id: 0xa1,
                tail_number: String::from("AF-001"),
                callsign: String::from("REAPER-01"),
                platform_type: PlatformType::Mq9Reaper,
                status: DroneStatus::Preflight,
                current_position: Coordinates::default(),
                fuel_pct: 100,
                total_engagements: 0,
                successful_hits: 0,
                current_waypoint: 0,
                total_waypoints: 25,
                created_at_ms: 0,
                updated_at_ms: 0,
            },
        )
        .unwrap();
    let sub = ctx.drone_status_topic.subscribe();
    let updated = m
        .update_drone_state(
            &mut ctx,
            C1,
            A1,
            Coordinates::default(),
            75,
            DroneStatus::Airborne,
            42,
        )
        .unwrap();
    assert_eq!(updated.status, DroneStatus::Airborne);
    assert_eq!(updated.fuel_pct, 75);
    assert_eq!(updated.updated_at_ms, 42);
    assert!(!updated.fuel_critical());
    let events = ctx.drone_status_topic.drain(sub);
    assert_eq!(events.len(), 1);
    assert_eq!(events[0].old_status, DroneStatus::Preflight);
    assert_eq!(events[0].new_status, DroneStatus::Airborne);
}

#[test]
fn telemetry_round_trips_through_both_tiers() {
    let mut ctx = ApiContext::new();
    let m = MutationRoot::new();
    let q = QueryRoot::new();
    let snapshot = Telemetry {
        drone_id: 0xa1,
        time_bucket: Telemetry::generate_time_bucket(0),
        recorded_at_ms: 0,
        position: Coordinates::default(),
        velocity_cmps: 8000,
        fuel_pct: 75,
        current_waypoint: 15,
        mesh_connectivity_pct: 95,
        distance_to_next_m: 12_500,
    };
    m.record_telemetry(&mut ctx, &snapshot).unwrap();
    let latest = q.get_latest_telemetry(&ctx, A1).unwrap().unwrap();
    assert_eq!(latest.time_bucket, "1970010100");
    assert_eq!(latest.fuel_pct, 75);
    // A newer snapshot replaces it; the cold tier keeps both.
    let newer = Telemetry {
        recorded_at_ms: 5_000,
        fuel_pct: 74,
        time_bucket: Telemetry::generate_time_bucket(5_000),
        ..snapshot
    };
    m.record_telemetry(&mut ctx, &newer).unwrap();
    let latest = q.get_latest_telemetry(&ctx, A1).unwrap().unwrap();
    assert_eq!(latest.fuel_pct, 74);
    assert_eq!(ctx.store.cold.telemetry.len(), 2);
    // The cold scan agrees once the hot tier is down.
    ctx.store.hot.set_available(false);
    let latest = q.get_latest_telemetry(&ctx, A1).unwrap().unwrap();
    assert_eq!(latest.fuel_pct, 74);
}

#[test]
fn waypoints_store_under_their_sequence_numbers() {
    let mut ctx = ApiContext::new();
    let m = MutationRoot::new();
    let q = QueryRoot::new();
    let mut batch = Vec::new();
    for i in 1..=25u32 {
        batch.push(Waypoint {
            drone_id: 0xa1,
            sequence_number: i,
            waypoint_id: i as u128,
            name: format!("WP-{i:02}"),
            waypoint_type: if i % 5 == 0 { WaypointType::Loiter } else { WaypointType::Nav },
            coordinates: Coordinates::default(),
            status: WaypointStatus::Pending,
            planned_arrival_ms: None,
            actual_arrival_ms: None,
            planned_departure_ms: None,
            actual_departure_ms: None,
            loiter_duration_min: if i % 5 == 0 { Some(10) } else { None },
        });
    }
    assert_eq!(m.create_waypoints(&mut ctx, &batch).unwrap(), 25);
    let ws = q.get_waypoints(&ctx, A1).unwrap();
    assert_eq!(ws.len(), 25);
    assert_eq!(ws[0].name, "WP-01");
    assert_eq!(ws[24].name, "WP-25");
}

#[test]
fn rebuild_repopulates_the_hot_projection() {
    let mut ctx = ApiContext::new();
    let m = MutationRoot::new();
    m.record_engagement(&mut ctx, &record_input(C1, A1, true), 1).unwrap();
    m.record_engagement(&mut ctx, &record_input(C1, A2, false), 2).unwrap();
    let res = m.rebuild_leaderboard(&mut ctx, C1, 3).unwrap();
    assert!(res.success);
    assert_eq!(res.entries_processed, 2);
}

#[test]
fn asset_rank_follows_the_page() {
    let mut ctx = ApiContext::new();
    let m = MutationRoot::new();
    let q = QueryRoot::new();
    m.record_engagement(&mut ctx, &record_input(C1, A1, true), 1).unwrap();
    m.record_engagement(&mut ctx, &record_input(C1, A2, false), 2).unwrap();
    let top = q.get_drone_rank(&mut ctx, C1, A1).unwrap().unwrap();
    assert_eq!(top.rank, 1);
    let low = q.get_drone_rank(&mut ctx, C1, A2).unwrap().unwrap();
    assert_eq!(low.rank, 2);
    assert!(q.get_drone_rank(&mut ctx, C2, A1).unwrap().is_none());
    assert_eq!(ctx.leaderboard_repo.get_rank(&ctx.store, 0xc1, 0xa1), Some(1));
    assert_eq!(ctx.leaderboard_repo.get_rank(&ctx.store, 0xc1, 0xa2), Some(2));
    assert_eq!(ctx.leaderboard_repo.get_rank(&ctx.store, 0xc1, 0xaf), None);
}

#[test]
fn health_and_stats_read_back() {
    let mut ctx = ApiContext::new();
    let m = MutationRoot::new();
    let q = QueryRoot::new();
    assert_eq!(q.health(), "OK");
    m.record_engagement(&mut ctx, &record_input(C1, A1, true), 1).unwrap();
    m.record_engagement(&mut ctx, &record_input(C1, A1, false), 2).unwrap();
    let st = q.get_convoy_stats(&mut ctx, C1, 3).unwrap();
    assert_eq!(st.drone_count, 1);
    assert_eq!(st.total_engagements, 2);
    assert_eq!(st.total_hits, 1);
    assert_eq!(st.average_accuracy_x100, 5000);
}

#[test]
fn a_cancelled_subscription_releases_its_buffer() {
    let mut ctx = ApiContext::new();
    let m = MutationRoot::new();
    let s = SubscriptionRoot::new();
    let sub = s.engagement_events(&mut ctx);
    m.record_engagement(&mut ctx, &record_input(C1, A1, true), 1).unwrap();
    s.close_engagement_events(&mut ctx, sub);
    assert!(!ctx.engagement_topic.is_open(sub));
    assert_eq!(s.poll_all_engagement_events(&mut ctx, sub).len(), 0);
    // A dropped subscriber no longer receives anything.
    m.record_engagement(&mut ctx, &record_input(C1, A1, true), 2).unwrap();
    assert_eq!(s.poll_all_engagement_events(&mut ctx, sub).len(), 0);
}

#[test]
fn counters_increment_atomically_in_both_tiers() {
    let mut ctx = ApiContext::new();
    // The authoritative cold counters.
    let (t1, h1) = ctx
        .leaderboard_repo
        .increment_counters(&mut ctx.store, 0xc1, 0xa1, true)
        .unwrap();
    assert_eq!((t1, h1), (1, 1));
    let (t2, h2) = ctx
        .leaderboard_repo
        .increment_counters(&mut ctx.store, 0xc1, 0xa1, false)
        .unwrap();
    assert_eq!((t2, h2), (2, 1));
    // The hot-tier per-asset stats behave the same way.
    let (t, h) = ctx.store.hot.increment_engagements(0xa1, true).unwrap();
    assert_eq!((t, h), (1, 1));
    let (t, h) = ctx.store.hot.increment_engagements(0xa1, true).unwrap();
    assert_eq!((t, h), (2, 2));
    // While the tier is down the hot increment fails and changes nothing.
    ctx.store.hot.set_available(false);
    assert!(ctx.store.hot.increment_engagements(0xa1, true).is_err());
}

#[test]
fn coordinates_carry_micro_degrees() {
    let c = Coordinates::new(34_555_300, 69_207_500, 1_800);
    assert_eq!(c.lat_udeg, 34_555_300);
    assert_eq!(c.heading_cdeg, 0);
    assert_eq!(Coordinates::default().lat_udeg, 34_555_300);
}
