use api::counter_sample::{plan_counter_sample, window_row, CounterStep, SAFETY_MARGIN_NANOS};
use api::resolution::NANOS_PER_SEC;

const NOW: i128 = 1_700_000_000 * NANOS_PER_SEC;

#[test]
fn the_safety_margin_outlasts_the_block_gate_by_a_minute() {
    assert_eq!(SAFETY_MARGIN_NANOS, 360 * NANOS_PER_SEC);
}

#[test]
fn a_first_tick_only_establishes_a_cursor() {
    match plan_counter_sample(NOW, None, 60) {
        CounterStep::Establish(row) => {
            assert_eq!(row.sampled_at, NOW - SAFETY_MARGIN_NANOS);
            assert_eq!(row.period_secs, 60);
            assert_eq!(row.added_txs, None);
        }
        other => panic!("expected a cursor row, got {other:?}"),
    }
}

#[test]
fn a_tick_counts_from_the_cursor_to_the_margin() {
    let cursor = NOW - SAFETY_MARGIN_NANOS - 60 * NANOS_PER_SEC;
    assert_eq!(
        plan_counter_sample(NOW, Some(cursor), 60),
        CounterStep::Count { start: cursor, end: NOW - SAFETY_MARGIN_NANOS }
    );
}

#[test]
fn a_window_that_would_be_empty_is_skipped() {
    let cursor = NOW - SAFETY_MARGIN_NANOS;
    assert_eq!(plan_counter_sample(NOW, Some(cursor), 60), CounterStep::Skip);
    assert_eq!(plan_counter_sample(NOW, Some(NOW), 60), CounterStep::Skip);
}

#[test]
fn a_window_row_carries_counts_or_none_after_a_restart() {
    let start = NOW - 90 * NANOS_PER_SEC;
    let row = window_row(start, NOW, Some((1, 2, 3)));
    assert_eq!(row.sampled_at, NOW);
    assert_eq!(row.period_secs, 90);
    assert_eq!((row.added_txs, row.confirmed_txs, row.evicted_txs), (Some(1), Some(2), Some(3)));
    let row = window_row(start, NOW, None);
    assert_eq!((row.added_txs, row.confirmed_txs, row.evicted_txs), (None, None, None));
}

#[test]
fn a_tick_now_closes_its_window_a_margin_before_the_clock() {
    let before = time::OffsetDateTime::now_utc().unix_timestamp_nanos();
    let (now, step) = api::counter_sample::plan_counter_sample_now(None, 60);
    assert!(now >= before);
    match step {
        CounterStep::Establish(row) => assert_eq!(row.sampled_at, now - SAFETY_MARGIN_NANOS),
        other => panic!("expected a cursor row, got {other:?}"),
    }
}
