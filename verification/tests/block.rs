use api::block::{
    catch_up_start, catch_up_step, CatchUpAction, CatchUpEvent, CatchUpState,
    block_rows, block_totals, catch_up_backoff, catch_up_heights, MAX_CATCH_UP_BACKOFF_MS,
};
use api::cluster::MinedTx;
use std::time::Duration;

const MAX_CATCH_UP_BACKOFF: Duration = Duration::from_millis(MAX_CATCH_UP_BACKOFF_MS);

fn backoff(attempts: u32) -> Duration {
    Duration::from_millis(catch_up_backoff(attempts))
}

fn mined(txid: &str, fee_sats: i64) -> MinedTx {
    MinedTx {
        txid: txid.to_string(),
        fee_sats,
        vsize: 100,
        input_txids: vec!["parent".to_string()],
    }
}

#[test]
fn catch_up_backoff_doubles_then_caps() {
    assert_eq!(backoff(0), Duration::from_millis(250));
    assert_eq!(backoff(1), Duration::from_millis(500));
    assert_eq!(backoff(5), Duration::from_secs(8));
    assert_eq!(backoff(6), MAX_CATCH_UP_BACKOFF);
    assert_eq!(backoff(u32::MAX), MAX_CATCH_UP_BACKOFF);
}

#[test]
fn catch_up_backoff_past_the_shift_width_is_the_ceiling() {
    assert_eq!(backoff(31), MAX_CATCH_UP_BACKOFF);
    assert_eq!(backoff(32), MAX_CATCH_UP_BACKOFF);
    assert_eq!(backoff(1000), MAX_CATCH_UP_BACKOFF);
}

#[test]
fn an_empty_database_starts_at_the_tip() {
    assert_eq!(catch_up_heights(None, 800_000), Some((800_000, 800_000)));
}

#[test]
fn a_stored_height_resumes_at_the_next_one() {
    assert_eq!(catch_up_heights(Some(799_990), 800_000), Some((799_991, 800_000)));
    assert_eq!(catch_up_heights(Some(799_999), 800_000), Some((800_000, 800_000)));
}

#[test]
fn nothing_to_do_at_or_past_the_tip() {
    assert_eq!(catch_up_heights(Some(800_000), 800_000), None);
    assert_eq!(catch_up_heights(Some(800_001), 800_000), None);
    assert_eq!(catch_up_heights(Some(i64::MAX), i64::MAX), None);
}

#[test]
fn block_rows_are_confirmed_and_never_hollow() {
    let txs = vec![mined("coinbase", 0), mined("b", 1000)];
    let rows = block_rows(&"blockhash".to_string(), &txs, 7, 9);
    assert_eq!(rows.len(), 2);
    assert_eq!(rows[1].txid, "b");
    assert_eq!(rows[1].fee, Some(1000));
    assert_eq!(rows[1].vsize, 100);
    assert_eq!(rows[1].first_seen_at, 7);
    assert_eq!(rows[1].confirmed_at, Some(9));
    assert_eq!(rows[1].confirmed_at_block.as_deref(), Some("blockhash"));
    assert_eq!(rows[1].cluster_id, None);
    assert!(!rows[1].hollow);
    assert_eq!(rows[1].input_txids, Some(vec!["parent".to_string()]));
}

#[test]
fn new_block_aggregates_tx_count_and_total_fee() {
    let txs = vec![mined("coinbase", 0), mined("b", 1000)];
    assert_eq!(block_totals(&txs), (2, 1000));
}

#[test]
fn a_pass_applies_each_missing_height_then_rereads_the_tip() {
    let (state, action) = catch_up_start();
    assert_eq!(action, CatchUpAction::ReadTip);
    let (state, action) = catch_up_step(state, CatchUpEvent::TipRead(12));
    assert_eq!(action, CatchUpAction::ReadLatest);
    let (state, action) = catch_up_step(state, CatchUpEvent::LatestRead(Some(10)));
    assert_eq!(action, CatchUpAction::Apply(11));
    let (state, action) = catch_up_step(state, CatchUpEvent::Applied);
    assert_eq!(action, CatchUpAction::Apply(12));
    let (state, action) = catch_up_step(state, CatchUpEvent::Applied);
    assert_eq!((state, action), (CatchUpState::ReadingTip, CatchUpAction::ReadTip));
    let (state, _) = catch_up_step(state, CatchUpEvent::TipRead(12));
    let (state, action) = catch_up_step(state, CatchUpEvent::LatestRead(Some(12)));
    assert_eq!((state, action), (CatchUpState::Done, CatchUpAction::Finish));
}

#[test]
fn a_pass_stops_at_the_first_failure() {
    let state = CatchUpState::Applying { height: 5, tip: 9 };
    assert_eq!(catch_up_step(state, CatchUpEvent::Failed), (CatchUpState::Done, CatchUpAction::Fail));
}

#[test]
fn an_empty_database_applies_only_the_tip() {
    let (state, _) = catch_up_step(CatchUpState::ReadingTip, CatchUpEvent::TipRead(7));
    let (_, action) = catch_up_step(state, CatchUpEvent::LatestRead(None));
    assert_eq!(action, CatchUpAction::Apply(7));
}
