use api::error::ApiError;
use api::resolution::{pick_resolution, read_range, MAX_POINTS, NANOS_PER_SEC};
use time::Duration;

fn pick(span: Duration) -> i64 {
    pick_resolution(span.whole_seconds())
}

#[test]
fn pick_resolution_uses_native_cadence_for_a_day() {
    assert_eq!(pick(Duration::hours(24)), 60);
}

#[test]
fn pick_resolution_steps_up_the_ladder_as_the_range_widens() {
    assert_eq!(pick(Duration::days(3)), 300);
    assert_eq!(pick(Duration::days(30)), 1_800);
    assert_eq!(pick(Duration::days(200)), 21_600);
}

#[test]
fn pick_resolution_keeps_points_within_the_cap_when_a_rung_fits() {
    let span = Duration::days(200);
    let points = span.whole_seconds() / pick(span);
    assert!(points <= MAX_POINTS);
}

#[test]
fn pick_resolution_clamps_to_the_widest_rung_for_an_extreme_range() {
    assert_eq!(pick(Duration::days(3_650)), 86_400);
}

#[test]
fn a_range_defaults_to_the_day_before_now() {
    let now = 1_700_000_000 * NANOS_PER_SEC;
    let (from, to, resolution) = read_range(None, None, now).unwrap();
    assert_eq!(to, now);
    assert_eq!(from, now - 24 * 3600 * NANOS_PER_SEC);
    assert_eq!(resolution, 60);
}

#[test]
fn fetch_range_rejects_a_from_not_earlier_than_to() {
    let to = 1_700_000_000 * NANOS_PER_SEC;
    match read_range(Some(to), Some(to), 0) {
        Err(ApiError::BadRequest(m)) => assert_eq!(m, "`from` must be earlier than `to`"),
        other => panic!("expected a bad request, got {other:?}"),
    }
}

#[test]
fn a_month_range_reads_half_hour_buckets() {
    let to = 1_700_000_000 * NANOS_PER_SEC;
    let from = to - 30 * 24 * 3600 * NANOS_PER_SEC;
    assert_eq!(read_range(Some(from), Some(to), 0).unwrap(), (from, to, 1_800));
}

#[test]
fn a_range_without_an_end_ends_now() {
    let before = time::OffsetDateTime::now_utc().unix_timestamp_nanos();
    let (from, to, resolution) = api::resolution::read_range_now(None, None).unwrap();
    assert!(to >= before);
    assert_eq!(to - from, 24 * 3600 * NANOS_PER_SEC);
    assert_eq!(resolution, 60);
}
