use zkfp::db_error::DbError;
use zkfp::sync::{cron_delay, Delay};
use zkfp::sync::{
    next_daily_occurrence, next_weekly_occurrence, sync_write_plan, validate_time, SyncConfig,
    SyncMapping, SyncSchedule, SyncStrategy, Timestamp, Weekday,
};

#[test]
fn test_sync_mapping() {
    let mapping = SyncMapping::new(
        "SELECT id, name FROM users WHERE active = true",
        "local_users",
    )
    .map_same("id")
    .map_column("name", "full_name")
    .with_strategy(SyncStrategy::Upsert);

    assert_eq!(mapping.local_table, "local_users");
    assert_eq!(
        mapping.column_map.get("name"),
        Some(&"full_name".to_string())
    );
    assert_eq!(mapping.strategy, SyncStrategy::Upsert);
}

#[test]
fn test_schedule_validation() {
    assert!(SyncSchedule::interval(30).validate().is_ok());
    assert!(SyncSchedule::daily_at(23, 59).validate().is_ok());
    assert!(SyncSchedule::daily_at(24, 0).validate().is_err());
    assert!(SyncSchedule::weekly(vec![Weekday::Mon], 12, 0)
        .validate()
        .is_ok());
    assert!(SyncSchedule::weekly(vec![], 12, 0).validate().is_err());
}

#[test]
fn test_sync_config() {
    let mapping = SyncMapping::new("SELECT * FROM users", "local_users")
        .map_same("id")
        .map_same("name");

    let config = SyncConfig::new("postgres://localhost/db".to_string())
        .with_daily_schedule(3, 30)
        .add_mapping(mapping);

    assert_eq!(config.mappings.len(), 1);
    assert!(matches!(
        config.schedule,
        SyncSchedule::DailyAt {
            hour: 3,
            minute: 30
        }
    ));
}

fn sync_message(r: Result<(), DbError>) -> String {
    match r {
        Err(DbError::Sync(m)) => m,
        other => panic!("unexpected {:?}", other),
    }
}

#[test]
fn schedule_error_messages() {
    assert_eq!(sync_message(validate_time(24, 0)), "Hour must be between 0 and 23");
    assert_eq!(sync_message(validate_time(3, 60)), "Minute must be between 0 and 59");
    assert_eq!(
        sync_message(SyncSchedule::interval(0).validate()),
        "Interval must be greater than 0 seconds"
    );
    assert_eq!(
        sync_message(SyncSchedule::weekly(vec![], 1, 0).validate()),
        "Weekly schedule requires at least one weekday"
    );
    assert!(SyncSchedule::Manual.validate().is_ok());
}

#[test]
fn cron_validation() {
    assert!(SyncSchedule::cron("0 0 3 * * *".to_string()).validate().is_ok());
    let m = sync_message(SyncSchedule::cron("not a cron".to_string()).validate());
    assert!(m.starts_with("Invalid cron expression: "));
}

#[test]
fn next_daily_is_today_or_tomorrow() {
    // 2024-01-01T10:00:00Z (a Monday)
    let now = Timestamp { secs: 1704103200, nanos: 0 };
    assert_eq!(next_daily_occurrence(now, 12, 30).unwrap(), 1704103200 + 2 * 3600 + 1800);
    assert_eq!(next_daily_occurrence(now, 10, 0).unwrap(), 1704103200 + 86400);
    assert!(next_daily_occurrence(now, 25, 0).is_err());
}

#[test]
fn next_weekly_picks_earliest_day() {
    // 2024-01-01T10:00:00Z is a Monday
    let now = Timestamp { secs: 1704103200, nanos: 0 };
    let next = next_weekly_occurrence(now, &[Weekday::Wed, Weekday::Mon], 9, 0).unwrap();
    // Monday 09:00 has passed, so Wednesday 09:00
    assert_eq!(next, 1704103200 - 3600 + 2 * 86400);
    let same_day = next_weekly_occurrence(now, &[Weekday::Mon], 11, 0).unwrap();
    assert_eq!(same_day, 1704103200 + 3600);
}

#[test]
fn next_duration_by_schedule() {
    let now = Timestamp { secs: 1704103200, nanos: 500_000_000 };
    assert!(SyncSchedule::Manual.next_duration(now).unwrap().is_none());
    let d = SyncSchedule::interval(45).next_duration(now).unwrap().unwrap();
    assert_eq!((d.secs, d.nanos), (45, 0));
    let d = SyncSchedule::daily_at(10, 1).next_duration(now).unwrap().unwrap();
    assert_eq!((d.secs, d.nanos), (59, 500_000_000));
}

#[test]
fn sync_config_builders() {
    let c = SyncConfig::default();
    assert_eq!(c.postgres_url, "");
    assert!(matches!(c.schedule, SyncSchedule::Interval { seconds: 30 }));
    assert_eq!((c.max_retries, c.retry_backoff_secs), (3, 5));
    let c = SyncConfig::new("u".to_string()).manual();
    assert!(matches!(c.schedule, SyncSchedule::Manual));
    let c = c.with_interval(9);
    assert!(matches!(c.schedule, SyncSchedule::Interval { seconds: 9 }));
    let c = c.with_weekly_schedule(vec![Weekday::Fri], 1, 2);
    assert!(matches!(c.schedule, SyncSchedule::Weekly { hour: 1, minute: 2, .. }));
    let c = c.with_cron_schedule("0 * * * * *".to_string());
    assert!(matches!(c.schedule, SyncSchedule::Cron { .. }));
}

#[test]
fn mapping_defaults_and_keys() {
    let m = SyncMapping::new("q", "t");
    assert_eq!(m.strategy, SyncStrategy::Upsert);
    assert_eq!(m.unique_keys, vec!["id".to_string()]);
    let m = m.with_unique_keys(vec!["a".to_string(), "b".to_string()]).map_column("x", "y").map_column("x", "z");
    assert_eq!(m.unique_keys, vec!["a".to_string(), "b".to_string()]);
    assert_eq!(m.column_map.get("x"), Some(&"z".to_string()));
    assert_eq!(m.column_map.len(), 1);
    assert_eq!(Weekday::Sun.num_days_from_monday(), 6);
}

#[test]
fn write_plans() {
    let p = sync_write_plan(SyncStrategy::Replace);
    assert!(p.clear_table_first && !p.replace_rows);
    let p = sync_write_plan(SyncStrategy::Append);
    assert!(!p.clear_table_first && !p.replace_rows);
    let p = sync_write_plan(SyncStrategy::Upsert);
    assert!(!p.clear_table_first && p.replace_rows);
}

#[test]
fn cron_delay_from_next_instant() {
    let now = Timestamp { secs: 100, nanos: 0 };
    match cron_delay(now, None) {
        Err(DbError::Sync(m)) => assert_eq!(m, "Cron schedule has no future occurrences"),
        other => panic!("unexpected {:?}", other),
    }
    let next = Timestamp { secs: 160, nanos: 500 };
    assert_eq!(cron_delay(now, Some(next)).unwrap(), Some(Delay { secs: 60, nanos: 500 }));
    let past = Timestamp { secs: 99, nanos: 0 };
    match cron_delay(now, Some(past)) {
        Err(DbError::Sync(m)) => assert_eq!(m, "Source duration value is out of range for the target type"),
        other => panic!("unexpected {:?}", other),
    }
}
