use api::config::{check_snapshot_interval, ApiConfig, NATIVE_RESOLUTION_SECS};

#[test]
fn defaults_bind_locally() {
    let cfg = ApiConfig::default();
    assert_eq!(cfg.bind, "127.0.0.1:3333");
    assert_eq!(cfg.data_dir, "data");
    assert_eq!(cfg.snapshot_interval_secs, 60);
    assert_eq!(cfg.tx_backfill_queue_capacity, 100_000);
    assert!(cfg.database.url.is_empty());
}

#[test]
fn a_snapshot_interval_below_native_resolution_is_rejected() {
    let err = check_snapshot_interval(30).unwrap_err();
    assert_eq!(err.key, "SNAPSHOT_INTERVAL_SECS");
    assert_eq!(err.value, "30");
    assert!(err.reason.contains("60"), "reason should name NATIVE_RESOLUTION_SECS: {}", err.reason);
}

#[test]
fn a_snapshot_interval_at_or_above_native_resolution_is_accepted() {
    assert_eq!(check_snapshot_interval(NATIVE_RESOLUTION_SECS as u64).unwrap(), 60);
    assert_eq!(check_snapshot_interval(120).unwrap(), 120);
}
