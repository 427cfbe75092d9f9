//! Counter samples: how many txids entered, were confirmed and were evicted
//! per window, windows chaining from one sample to the next. Times are unix
//! nanoseconds.
use crate::block_gate::MAX_HOLD_NANOS;
use crate::clock::now_unix_nanos;
use crate::resolution::{whole_seconds, NANOS_PER_SEC};
use vstd::prelude::*;

verus! {

/// How far behind now a window closes. A row carries the time its entry was
/// observed, but the block gate can hold a flush for up to its ceiling, so a
/// window is only counted once that ceiling, plus a minute, has passed.
pub const SAFETY_MARGIN_NANOS: i128 = (MAX_HOLD_NANOS as i128) + 60 * NANOS_PER_SEC;

/// One counter sample row.
#[derive(Debug, Clone, Copy, PartialEq, Eq)]
pub struct NewMempoolCounterSampleRow {
    pub sampled_at: i128,
    pub period_secs: i64,
    pub added_txs: Option<i64>,
    pub confirmed_txs: Option<i64>,
    pub evicted_txs: Option<i64>,
}

/// What one sampler tick does.
#[derive(Debug, Clone, Copy, PartialEq, Eq)]
pub enum CounterStep {
    /// No cursor yet: write this row only to establish one.
    Establish(NewMempoolCounterSampleRow),
    /// The window would be empty or reversed (clock skew, or a tick firing
    /// before the previous window closed): do nothing.
    Skip,
    /// Count the window `(start, end]`.
    Count { start: i128, end: i128 },
}

/// What a sampler tick at `now` does, given the end of the last window covered
/// (`cursor`) and the sampling interval: the window closes `SAFETY_MARGIN_NANOS`
/// before now.
pub open spec fn counter_step_spec(now: i128, cursor: Option<i128>, interval_secs: u64) -> CounterStep {
    let end = now - SAFETY_MARGIN_NANOS;
    match cursor {
        None => CounterStep::Establish(
            NewMempoolCounterSampleRow {
                sampled_at: end as i128,
                period_secs: interval_secs as i64,
                added_txs: None,
                confirmed_txs: None,
                evicted_txs: None,
            },
        ),
        Some(start) => if end <= start {
            CounterStep::Skip
        } else {
            CounterStep::Count { start, end: end as i128 }
        },
    }
}

/// Plans one sampler tick at `now`, given the end of the last window covered
/// (`cursor`) and the sampling interval.
pub fn plan_counter_sample(now: i128, cursor: Option<i128>, interval_secs: u64) -> (step: CounterStep)
    requires
        now >= i128::MIN + SAFETY_MARGIN_NANOS,
    ensures
        step == counter_step_spec(now, cursor, interval_secs),
{
    let window_end = now - SAFETY_MARGIN_NANOS;
    match cursor {
        None => CounterStep::Establish(
            NewMempoolCounterSampleRow {
                sampled_at: window_end,
                period_secs: interval_secs as i64,
                added_txs: None,
                confirmed_txs: None,
                evicted_txs: None,
            },
        ),
        Some(window_start) => {
            if window_end <= window_start {
                CounterStep::Skip
            } else {
                CounterStep::Count { start: window_start, end: window_end }
            }
        },
    }
}

/// Plans one sampler tick now, by our clock.
pub fn plan_counter_sample_now(cursor: Option<i128>, interval_secs: u64) -> (res: (i128, CounterStep))
    ensures
        res.1 == counter_step_spec(res.0, cursor, interval_secs),
{
    let now = now_unix_nanos();
    (now, plan_counter_sample(now, cursor, interval_secs))
}

/// The row for window `(start, end]`: the three counts (added, confirmed,
/// evicted), or none when the server restarted in the window (`counts` is
/// `None`), since the journal may then have lost entries.
pub fn window_row(start: i128, end: i128, counts: Option<(i64, i64, i64)>) -> (row:
    NewMempoolCounterSampleRow)
    requires
        start < end,
        end - start <= i64::MAX as int * NANOS_PER_SEC,
    ensures
        row.sampled_at == end,
        row.period_secs == whole_seconds(end - start),
        match counts {
            Some((added, confirmed, evicted)) => row.added_txs == Some(added) && row.confirmed_txs
                == Some(confirmed) && row.evicted_txs == Some(evicted),
            None => row.added_txs is None && row.confirmed_txs is None && row.evicted_txs is None,
        },
{
    let period_secs = ((end - start) / NANOS_PER_SEC) as i64;
    match counts {
        None => NewMempoolCounterSampleRow {
            sampled_at: end,
            period_secs,
            added_txs: None,
            confirmed_txs: None,
            evicted_txs: None,
        },
        Some((added, confirmed, evicted)) => NewMempoolCounterSampleRow {
            sampled_at: end,
            period_secs,
            added_txs: Some(added),
            confirmed_txs: Some(confirmed),
            evicted_txs: Some(evicted),
        },
    }
}

/// Counted windows chain: a window starts where the row of the one before it
/// was stamped, ends after it starts, and a later tick never counts it again.
pub proof fn counted_windows_chain(
    now1: i128,
    cursor: i128,
    now2: i128,
    interval_secs: u64,
    start1: i128,
    end1: i128,
    start2: i128,
    end2: i128,
)
    requires
        now1 >= i128::MIN + SAFETY_MARGIN_NANOS,
        now2 >= i128::MIN + SAFETY_MARGIN_NANOS,
        counter_step_spec(now1, Some(cursor), interval_secs) == (CounterStep::Count {
            start: start1,
            end: end1,
        }),
        counter_step_spec(now2, Some(end1), interval_secs) == (CounterStep::Count {
            start: start2,
            end: end2,
        }),
    ensures
        start1 == cursor,
        start1 < end1,
        start2 == end1,
        end1 < end2,
{
}

} // verus!
