use api::tx_backfill::{
    after_fetch, retry_backoff, BackfillStep, FetchOutcome, should_retry, BackfillRequest, HARD_MAX_ATTEMPTS, MAX_ATTEMPTS,
    MAX_RETRY_BACKOFF_MS,
};
use std::time::Duration;

const MAX_RETRY_BACKOFF: Duration = Duration::from_millis(MAX_RETRY_BACKOFF_MS);

fn backoff(attempts: u8) -> Duration {
    Duration::from_millis(retry_backoff(attempts))
}

#[test]
fn backfill_request_new_starts_at_zero_attempts() {
    assert_eq!(BackfillRequest::new("a".to_string()).attempts, 0);
}

#[test]
fn retry_backoff_doubles_then_caps() {
    assert_eq!(backoff(0), Duration::from_millis(250));
    assert_eq!(backoff(1), Duration::from_millis(500));
    assert_eq!(backoff(2), Duration::from_secs(1));
    assert_eq!(backoff(7), Duration::from_secs(32));
    assert_eq!(backoff(8), MAX_RETRY_BACKOFF);
    // no overflow past the shift width
    assert_eq!(backoff(u8::MAX), MAX_RETRY_BACKOFF);
}

#[test]
fn should_retry_respects_max_attempts_once_the_tx_left_the_mempool() {
    assert!(should_retry(MAX_ATTEMPTS - 1, false));
    assert!(!should_retry(MAX_ATTEMPTS, false));
}

#[test]
fn should_retry_ignores_max_attempts_while_the_tx_is_still_in_the_mempool() {
    assert!(should_retry(MAX_ATTEMPTS, true));
    assert!(should_retry(HARD_MAX_ATTEMPTS - 1, true));
}

#[test]
fn should_retry_stops_at_the_hard_cap_even_in_the_mempool() {
    assert!(!should_retry(HARD_MAX_ATTEMPTS, true));
}

#[test]
fn backoff_past_the_u32_shift_width_is_the_ceiling() {
    assert_eq!(backoff(31), MAX_RETRY_BACKOFF);
    assert_eq!(backoff(32), MAX_RETRY_BACKOFF);
    assert_eq!(backoff(40), MAX_RETRY_BACKOFF);
}

#[test]
fn backfill_request_new_keeps_the_txid() {
    assert_eq!(BackfillRequest::new("deadbeef".to_string()).txid, "deadbeef");
}

#[test]
fn backoff_never_shrinks_and_never_exceeds_the_ceiling() {
    let mut last = backoff(0);
    for a in 1..=u8::MAX {
        let b = backoff(a);
        assert!(b >= last);
        assert!(b <= MAX_RETRY_BACKOFF);
        last = b;
    }
}

#[test]
fn once_given_up_a_request_stays_given_up() {
    for a in MAX_ATTEMPTS..=u8::MAX {
        assert!(!should_retry(a, false));
    }
    for a in HARD_MAX_ATTEMPTS..=u8::MAX {
        assert!(!should_retry(a, true));
    }
}

#[test]
fn a_failed_fetch_is_retried_after_the_backoff_of_the_attempts_before_it() {
    let req = BackfillRequest { txid: "t".to_string(), attempts: 1 };
    match after_fetch(req, FetchOutcome::Failed, false) {
        BackfillStep::Retry { delay_ms, request } => {
            assert_eq!(delay_ms, 500);
            assert_eq!(request.txid, "t");
            assert_eq!(request.attempts, 2);
        }
        other => panic!("expected a retry, got {other:?}"),
    }
}

#[test]
fn a_fetch_is_given_up_on_past_the_cap_unless_the_tx_is_still_in_the_mempool() {
    let req = || BackfillRequest { txid: "t".to_string(), attempts: MAX_ATTEMPTS };
    assert!(matches!(
        after_fetch(req(), FetchOutcome::Failed, false),
        BackfillStep::GiveUp { attempts_made } if attempts_made == MAX_ATTEMPTS + 1
    ));
    assert!(matches!(after_fetch(req(), FetchOutcome::Failed, true), BackfillStep::Retry { .. }));
    assert!(matches!(after_fetch(req(), FetchOutcome::Fetched, false), BackfillStep::Persist));
    assert!(matches!(after_fetch(req(), FetchOutcome::NotInMempool, true), BackfillStep::Drop));
}
