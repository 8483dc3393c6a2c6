use jetstream_turbo::api::health_status;
use jetstream_turbo::errors::TurboError;
use jetstream_turbo::pool::{cleanup_idle_clients, PooledClient};
use jetstream_turbo::rotation::DatabaseRotator;
use jetstream_turbo::storage::{combine_writes, needs_cleanup, CleanupStep, VacuumCleanup};

#[test]
fn cleanup_within_budget_stops_after_one_round() {
    let mut c = VacuumCleanup::new(30);
    match c.delete_step(1_000_000_000) {
        CleanupStep::Delete { cutoff_secs } => assert_eq!(cutoff_secs, 1_000_000_000 - 30 * 86400),
        CleanupStep::Compact => panic!("expected a deletion"),
    }
    assert!(!c.after_round(5, 100, i64::MAX));
    assert_eq!(c.total_deleted, 5);
}

#[test]
fn cleanup_halves_retention_up_to_three_rounds() {
    let mut c = VacuumCleanup::new(8);
    assert!(c.after_round(0, 200, 100));
    assert_eq!(c.retention_days, 4);
    assert!(c.after_round(0, 200, 100));
    assert_eq!(c.retention_days, 2);
    assert!(!c.after_round(0, 200, 100));
    assert_eq!(c.round, 3);
}

#[test]
fn retention_never_below_one_day() {
    let mut c = VacuumCleanup::new(1);
    assert!(c.after_round(0, 200, 100));
    assert_eq!(c.retention_days, 1);
}

#[test]
fn size_check() {
    assert!(!needs_cleanup(1024 * 1024, 1));
    assert!(needs_cleanup(1024 * 1024 + 1, 1));
}

#[test]
fn both_sinks_must_succeed() {
    assert_eq!(combine_writes(Ok(vec![1, 2]), Ok(())).ok().unwrap(), vec![1, 2]);
    assert!(matches!(
        combine_writes(Ok(vec![1]), Err(TurboError::RedisOperation("down".to_string()))),
        Err(TurboError::RedisOperation(_))
    ));
    assert!(matches!(
        combine_writes(Err(TurboError::Database("locked".to_string())), Ok(())),
        Err(TurboError::Database(_))
    ));
}

#[test]
fn pooled_client_bookkeeping() {
    let mut c = PooledClient::new(7u32, 100);
    assert_eq!(*c.get_client(), 7);
    c.touch(150);
    assert_eq!(c.usage_count, 1);
    assert_eq!(c.age(200), 100);
    assert_eq!(c.idle_time(200), 50);
    let kept = cleanup_idle_clients(vec![PooledClient::new(1u32, 0), PooledClient::new(2u32, 90)], 20, 100);
    assert_eq!(kept.len(), 1);
    assert_eq!(kept[0].client, 2);
}

#[test]
fn database_path_has_timestamp() {
    let r = DatabaseRotator::new("data_store".to_string(), 60_000, 5, 3600);
    assert_eq!(r.get_db_dir(), "data_store");
    assert_eq!(r.get_current_database_path(1700000000), "data_store/jetstream_1700000000.db");
}

#[test]
fn health_follows_stream_sink() {
    let h = health_status(true, false, 1);
    assert!(h.healthy);
    assert!(!h.sqlite_available);
    assert!(!health_status(false, true, 1).healthy);
}
