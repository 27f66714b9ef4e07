use drone_ops::accuracy::{accuracy_x100_of, AccuracyStats};
use drone_ops::domain::{AlertSeverity, ConvoyStatus, PlatformType, TargetType, WeaponType};
use drone_ops::errors::ApiError;
use drone_ops::ids::parse_uuid;
use drone_ops::errors::PersistenceError;
use drone_ops::numtext::{hundredths_to_string, u64_to_string};
use drone_ops::strategy::{
    compose_read, compose_write, CacheFirstStrategy, CacheOnlyStrategy, DbOnlyStrategy,
    DbOnlyWriteStrategy, DynamicStrategy, DynamicWriteStrategy, ReadStrategy, WriteAroundStrategy,
    WriteBackStrategy, WriteStrategy, WriteThroughStrategy,
};
use drone_ops::timefmt::{format_day_label, format_hour_bucket, format_rfc3339, hour_of_day};
use drone_ops::version;

#[test]
fn test_version() {
    assert!(!version().is_empty());
}

#[test]
fn accuracy_counters_follow_the_call_sequence() {
    // hit, hit, miss, hit
    let st = AccuracyStats::new();
    let st = st.record(true);
    let st = st.record(true);
    let st = st.record(false);
    let st = st.record(true);
    assert_eq!(st.total_engagements, 4);
    assert_eq!(st.successful_hits, 3);
    assert_eq!(st.current_streak, 1);
    assert_eq!(st.best_streak, 2);
}

#[test]
fn accuracy_streak_resets_on_miss() {
    let st = AccuracyStats::new().record(true).record(true).record(false);
    assert_eq!(st.current_streak, 0);
    assert_eq!(st.best_streak, 2);
}

#[test]
fn accuracy_best_streak_never_decreases() {
    let mut st = AccuracyStats::new();
    let mut best = 0;
    for hit in [true, true, false, true, true, true, false, false, true] {
        st = st.record(hit);
        assert!(st.best_streak >= best);
        best = st.best_streak;
    }
    assert_eq!(st.best_streak, 3);
}

#[test]
fn accuracy_is_rounded_to_hundredths_of_a_percent() {
    // 2 of 3: 66.67 percent, rounded half up.
    assert_eq!(accuracy_x100_of(3, 2), 6667);
    assert_eq!(accuracy_x100_of(3, 1), 3333);
    assert_eq!(accuracy_x100_of(1, 1), 10000);
    assert_eq!(accuracy_x100_of(0, 0), 0);
    assert_eq!(accuracy_x100_of(8, 1), 1250);
}

#[test]
fn uuid_parsing_accepts_the_hyphenated_form() {
    assert_eq!(
        parse_uuid("00000000-0000-0000-0000-000000000001"),
        Some(1u128)
    );
    assert_eq!(
        parse_uuid("00000000-0000-0000-0000-0000000000ff"),
        Some(255u128)
    );
    assert_eq!(
        parse_uuid("ffffffff-ffff-ffff-ffff-ffffffffffff"),
        Some(u128::MAX)
    );
    assert_eq!(
        parse_uuid("550e8400-e29b-41d4-a716-446655440000"),
        Some(0x550e8400_e29b_41d4_a716_446655440000u128)
    );
}

#[test]
fn uuid_parsing_rejects_malformed_text() {
    assert_eq!(parse_uuid(""), None);
    assert_eq!(parse_uuid("not-a-uuid"), None);
    assert_eq!(parse_uuid("00000000-0000-0000-0000-00000000000"), None);
    assert_eq!(parse_uuid("00000000-0000-0000-0000-00000000000g"), None);
    assert_eq!(parse_uuid("00000000000000000000000000000001"), None);
    assert_eq!(parse_uuid("00000000+0000-0000-0000-000000000001"), None);
}

#[test]
fn numbers_render_in_decimal() {
    assert_eq!(u64_to_string(0), "0");
    assert_eq!(u64_to_string(7), "7");
    assert_eq!(u64_to_string(1234), "1234");
    assert_eq!(u64_to_string(u64::MAX), "18446744073709551615");
}

#[test]
fn hundredths_render_with_two_decimals() {
    assert_eq!(hundredths_to_string(6667), "66.67");
    assert_eq!(hundredths_to_string(10000), "100.00");
    assert_eq!(hundredths_to_string(5), "0.05");
    assert_eq!(hundredths_to_string(0), "0.00");
}

#[test]
fn calendar_renderings_come_from_the_instant() {
    assert_eq!(format_hour_bucket(0), "1970010100");
    assert_eq!(format_hour_bucket(3_600_000), "1970010101");
    assert_eq!(format_day_label(0), "1970-01-01");
    assert_eq!(format_day_label(86_400_000), "1970-01-02");
    assert_eq!(format_rfc3339(0), "1970-01-01T00:00:00+00:00");
    assert_eq!(hour_of_day(0), 0);
    assert_eq!(hour_of_day(23 * 3_600_000 + 59), 23);
    assert_eq!(hour_of_day(24 * 3_600_000), 0);
}

#[test]
fn convoy_status_transitions_follow_the_chain() {
    assert!(ConvoyStatus::Planning.can_transition_to(ConvoyStatus::Active));
    assert!(ConvoyStatus::Active.can_transition_to(ConvoyStatus::Rtb));
    assert!(ConvoyStatus::Active.can_transition_to(ConvoyStatus::Abort));
    assert!(ConvoyStatus::Rtb.can_transition_to(ConvoyStatus::Complete));
    assert!(!ConvoyStatus::Planning.can_transition_to(ConvoyStatus::Complete));
    assert!(!ConvoyStatus::Complete.can_transition_to(ConvoyStatus::Active));
    assert!(!ConvoyStatus::Abort.can_transition_to(ConvoyStatus::Active));
}

#[test]
fn enum_names_are_stable() {
    assert_eq!(PlatformType::Mq9Reaper.as_str(), "MQ-9_REAPER");
    assert_eq!(WeaponType::Agm114Hellfire.as_str(), "AGM-114_HELLFIRE");
    assert_eq!(TargetType::Vehicle.as_str(), "VEHICLE");
}

#[test]
fn severity_ranks_are_ordered() {
    assert!(AlertSeverity::Info.rank() < AlertSeverity::Warning.rank());
    assert!(AlertSeverity::Warning.rank() < AlertSeverity::Critical.rank());
}

#[test]
fn api_errors_carry_their_codes_and_statuses() {
    let e = ApiError::InvalidUuid(String::from("oops"));
    assert_eq!(e.error_code(), "INVALID_UUID");
    assert_eq!(e.status_code(), 400);
    let e = ApiError::InvalidInput(String::from("bad"));
    assert_eq!(e.error_code(), "INVALID_INPUT");
    assert_eq!(e.status_code(), 400);
    let e = ApiError::NotFound {
        entity_type: String::from("convoy"),
        id: String::from("x"),
    };
    assert_eq!(e.error_code(), "NOT_FOUND");
    assert_eq!(e.status_code(), 404);
    let e = ApiError::RateLimited { retry_after_secs: 5 };
    assert_eq!(e.error_code(), "RATE_LIMITED");
    assert_eq!(e.status_code(), 429);
    let e = ApiError::Unauthorized(String::from("no"));
    assert_eq!(e.error_code(), "UNAUTHORIZED");
    assert_eq!(e.status_code(), 401);
    let e = ApiError::Internal(String::from("boom"));
    assert_eq!(e.error_code(), "INTERNAL_ERROR");
    assert_eq!(e.status_code(), 500);
}

#[test]
fn read_strategies_compose_the_tier_outcomes() {
    // A hot hit wins under CacheFirst; a miss or error falls back to cold.
    let r = compose_read::<u32>(ReadStrategy::CacheFirst, "k", Ok(Some(7)), Ok(9));
    assert_eq!(r.unwrap(), 7);
    let r = compose_read::<u32>(ReadStrategy::CacheFirst, "k", Ok(None), Ok(9));
    assert_eq!(r.unwrap(), 9);
    let r = compose_read::<u32>(
        ReadStrategy::CacheFirst,
        "k",
        Err(PersistenceError::HotStore(String::from("down"))),
        Ok(9),
    );
    assert_eq!(r.unwrap(), 9);
    // The cold tier decides alone under DbOnly and ReadThrough.
    let r = compose_read::<u32>(ReadStrategy::DbOnly, "k", Ok(Some(7)), Ok(9));
    assert_eq!(r.unwrap(), 9);
    let r = compose_read::<u32>(ReadStrategy::ReadThrough, "k", Ok(Some(7)), Ok(9));
    assert_eq!(r.unwrap(), 9);
    // A CacheOnly miss surfaces CacheMiss.
    let r = compose_read::<u32>(ReadStrategy::CacheOnly, "k", Ok(None), Ok(9));
    assert!(matches!(r, Err(PersistenceError::CacheMiss(_))));
    let r = compose_read::<u32>(ReadStrategy::CacheOnly, "k", Ok(Some(7)), Ok(9));
    assert_eq!(r.unwrap(), 7);
}

#[test]
fn write_strategies_pick_which_tier_decides() {
    let hot_down: Result<(), PersistenceError> =
        Err(PersistenceError::HotStore(String::from("down")));
    // A hot failure never fails a write-through; a cold failure always does.
    assert!(compose_write(WriteStrategy::WriteThrough, Ok(()), hot_down).is_ok());
    let cold_down: Result<(), PersistenceError> =
        Err(PersistenceError::ColdStore(String::from("down")));
    assert!(compose_write(WriteStrategy::WriteThrough, cold_down, Ok(())).is_err());
    // Write-back is decided by the hot tier alone.
    let hot_down: Result<(), PersistenceError> =
        Err(PersistenceError::HotStore(String::from("down")));
    assert!(compose_write(WriteStrategy::WriteBack, Ok(()), hot_down).is_err());
    assert!(compose_write(WriteStrategy::WriteBack, Ok(()), Ok(())).is_ok());
    let cold_down: Result<(), PersistenceError> =
        Err(PersistenceError::ColdStore(String::from("down")));
    assert!(compose_write(WriteStrategy::WriteAround, cold_down, Ok(())).is_err());
    assert!(compose_write(WriteStrategy::DbOnly, Ok(()), Ok(())).is_ok());
}

#[test]
fn named_strategies_carry_their_names_and_defaults() {
    assert_eq!(CacheFirstStrategy::new(true).name(), "cache_first");
    assert_eq!(DbOnlyStrategy.name(), "db_only");
    assert_eq!(CacheOnlyStrategy.name(), "cache_only");
    assert_eq!(WriteThroughStrategy.name(), "write_through");
    assert_eq!(WriteAroundStrategy.name(), "write_around");
    assert_eq!(WriteBackStrategy.name(), "write_back");
    assert_eq!(DbOnlyWriteStrategy.name(), "db_only_write");
    assert_eq!(ReadStrategy::default(), ReadStrategy::CacheFirst);
    assert_eq!(WriteStrategy::default(), WriteStrategy::WriteThrough);
    assert_eq!(
        DynamicStrategy::default().as_read_strategy(),
        ReadStrategy::CacheFirst
    );
    assert_eq!(
        DynamicWriteStrategy::default().as_write_strategy(),
        WriteStrategy::WriteThrough
    );
}
