//! Block sync decisions: which heights a catch-up pass applies, how long to wait
//! after a failed pass, and the transaction rows a mined block writes.
use crate::cluster::MinedTx;
use crate::models::NewTransaction;
use crate::text::{copy_strings, string_views};
use crate::tx_backfill::{capped_backoff_ms, capped_doubling};
use vstd::prelude::*;

verus! {

/// Backoff before the first catch-up retry, in milliseconds; doubles per attempt
/// up to `MAX_CATCH_UP_BACKOFF_MS`.
pub const CATCH_UP_BACKOFF_BASE_MS: u64 = 250;

/// Ceiling on the catch-up backoff, in milliseconds.
pub const MAX_CATCH_UP_BACKOFF_MS: u64 = 10_000;

/// Doubles per attempt up to the ceiling: 250ms, 500ms, 1s ... 10s. In
/// milliseconds.
pub fn catch_up_backoff(attempts: u32) -> (ms: u64)
    ensures
        ms as nat == capped_doubling(
            CATCH_UP_BACKOFF_BASE_MS as nat,
            MAX_CATCH_UP_BACKOFF_MS as nat,
            attempts as nat,
        ),
{
    capped_backoff_ms(CATCH_UP_BACKOFF_BASE_MS, MAX_CATCH_UP_BACKOFF_MS, attempts)
}

/// The first height a pass applies: the one after our highest stored block, or
/// the node's tip when nothing is stored yet.
pub open spec fn next_height(latest: Option<i64>, tip: i64) -> int {
    match latest {
        Some(h) => h + 1,
        None => tip as int,
    }
}

/// The inclusive range of heights a catch-up pass applies, in order, or `None`
/// when we are already at the tip.
pub fn catch_up_heights(latest: Option<i64>, tip: i64) -> (range: Option<(i64, i64)>)
    ensures
        range is None <==> next_height(latest, tip) > tip,
        range matches Some((from, to)) ==> from == next_height(latest, tip) && to == tip,
{
    match latest {
        Some(h) => {
            if h >= tip {
                None
            } else {
                Some((h + 1, tip))
            }
        },
        None => Some((tip, tip)),
    }
}

/// Where a catch-up pass stands.
#[derive(Debug, Clone, Copy, PartialEq, Eq)]
pub enum CatchUpState {
    /// Waiting for the node's tip height.
    ReadingTip,
    /// Waiting for our highest stored height, the tip being `tip`.
    ReadingLatest { tip: i64 },
    /// Waiting for the block at `height` to be applied; `tip` is the last
    /// height of this pass.
    Applying { height: i64, tip: i64 },
    /// The pass ended, caught up or failed.
    Done,
}

/// What a catch-up pass learned.
#[derive(Debug, Clone, Copy, PartialEq, Eq)]
pub enum CatchUpEvent {
    /// The node's tip height.
    TipRead(i64),
    /// Our highest stored height, if any block is stored.
    LatestRead(Option<i64>),
    /// The block being applied was fetched and applied.
    Applied,
    /// A node or database call failed.
    Failed,
}

/// What a catch-up pass does next.
#[derive(Debug, Clone, Copy, PartialEq, Eq)]
pub enum CatchUpAction {
    ReadTip,
    ReadLatest,
    /// Fetch the block at this height and apply it.
    Apply(i64),
    /// Caught up with the live tip.
    Finish,
    /// Stop at the first failure; the caller backs off and starts over.
    Fail,
}

/// Whether `event` is one that `state` waits for, and `state` is consistent.
pub open spec fn catch_up_expects(state: CatchUpState, event: CatchUpEvent) -> bool {
    match (state, event) {
        (CatchUpState::Done, _) => false,
        (_, CatchUpEvent::Failed) => state matches CatchUpState::Applying { height, tip } ==> height
            <= tip,
        (CatchUpState::ReadingTip, CatchUpEvent::TipRead(_)) => true,
        (CatchUpState::ReadingLatest { .. }, CatchUpEvent::LatestRead(_)) => true,
        (CatchUpState::Applying { height, tip }, CatchUpEvent::Applied) => height <= tip,
        _ => false,
    }
}

/// The step of a catch-up pass: read the tip, then our highest height, then
/// apply every height up to the tip in order, stopping at the first failure.
/// The chain can advance meanwhile, so after the last height the tip is read
/// again; the pass finishes only when nothing is left to apply.
pub open spec fn catch_up_spec(state: CatchUpState, event: CatchUpEvent) -> (CatchUpState, CatchUpAction) {
    match event {
        CatchUpEvent::Failed => (CatchUpState::Done, CatchUpAction::Fail),
        CatchUpEvent::TipRead(tip) => (CatchUpState::ReadingLatest { tip }, CatchUpAction::ReadLatest),
        CatchUpEvent::LatestRead(latest) => {
            let tip = state->ReadingLatest_tip;
            if next_height(latest, tip) > tip {
                (CatchUpState::Done, CatchUpAction::Finish)
            } else {
                let from = next_height(latest, tip) as i64;
                (CatchUpState::Applying { height: from, tip }, CatchUpAction::Apply(from))
            }
        },
        CatchUpEvent::Applied => {
            let (height, tip) = (state->Applying_height, state->Applying_tip);
            if height < tip {
                (
                    CatchUpState::Applying { height: (height + 1) as i64, tip },
                    CatchUpAction::Apply((height + 1) as i64),
                )
            } else {
                (CatchUpState::ReadingTip, CatchUpAction::ReadTip)
            }
        },
    }
}

/// Where a catch-up pass starts: reading the node's tip.
pub fn catch_up_start() -> (res: (CatchUpState, CatchUpAction))
    ensures
        res == (CatchUpState::ReadingTip, CatchUpAction::ReadTip),
{
    (CatchUpState::ReadingTip, CatchUpAction::ReadTip)
}

/// One step of a catch-up pass.
pub fn catch_up_step(state: CatchUpState, event: CatchUpEvent) -> (res: (CatchUpState, CatchUpAction))
    requires
        catch_up_expects(state, event),
    ensures
        res == catch_up_spec(state, event),
{
    match event {
        CatchUpEvent::Failed => (CatchUpState::Done, CatchUpAction::Fail),
        CatchUpEvent::TipRead(tip) => (CatchUpState::ReadingLatest { tip }, CatchUpAction::ReadLatest),
        CatchUpEvent::LatestRead(latest) => {
            let tip = match state {
                CatchUpState::ReadingLatest { tip } => tip,
                _ => 0,
            };
            match catch_up_heights(latest, tip) {
                None => (CatchUpState::Done, CatchUpAction::Finish),
                Some((from, _)) => (CatchUpState::Applying { height: from, tip }, CatchUpAction::Apply(from)),
            }
        },
        CatchUpEvent::Applied => {
            let (height, tip) = match state {
                CatchUpState::Applying { height, tip } => (height, tip),
                _ => (0, 0),
            };
            if height < tip {
                (CatchUpState::Applying { height: height + 1, tip }, CatchUpAction::Apply(height + 1))
            } else {
                (CatchUpState::ReadingTip, CatchUpAction::ReadTip)
            }
        },
    }
}

/// Once our highest stored height is known, a pass starts right after it, so
/// that no height between it and the tip is left out; with nothing stored it
/// starts at the tip, and at or past the tip it finishes.
pub proof fn a_pass_starts_right_after_the_highest_stored_height(tip: i64, latest: Option<i64>)
    ensures
        latest is Some && latest->0 < tip ==> catch_up_spec(
            (CatchUpState::ReadingLatest { tip }),
            CatchUpEvent::LatestRead(latest),
        ) == ((CatchUpState::Applying { height: (latest->0 + 1) as i64, tip }),
        CatchUpAction::Apply((latest->0 + 1) as i64)),
        latest is Some && latest->0 >= tip ==> catch_up_spec(
            (CatchUpState::ReadingLatest { tip }),
            CatchUpEvent::LatestRead(latest),
        ) == (CatchUpState::Done, CatchUpAction::Finish),
        latest is None ==> catch_up_spec(
            (CatchUpState::ReadingLatest { tip }),
            CatchUpEvent::LatestRead(latest),
        ) == ((CatchUpState::Applying { height: tip, tip }), CatchUpAction::Apply(tip)),
{
}

/// A pass reads our highest stored height right after the node's tip, keeping
/// that tip as the last height to apply, and any failure ends the pass as
/// failed.
pub proof fn a_pass_reads_the_tip_first_and_stops_at_a_failure(state: CatchUpState, tip: i64)
    ensures
        catch_up_spec(state, CatchUpEvent::TipRead(tip)) == ((CatchUpState::ReadingLatest { tip }),
        CatchUpAction::ReadLatest),
        catch_up_spec(state, CatchUpEvent::Failed) == (CatchUpState::Done, CatchUpAction::Fail),
{
}

/// The state after `n` successful applications from `state`.
pub open spec fn after_applied(state: CatchUpState, n: nat) -> CatchUpState
    decreases n,
{
    if n == 0 {
        state
    } else {
        catch_up_spec(after_applied(state, (n - 1) as nat), CatchUpEvent::Applied).0
    }
}

/// A pass applies every height from where it starts up to its tip, one after
/// another, and then reads the tip again rather than stopping.
pub proof fn a_pass_applies_every_height_then_rereads_the_tip(from: i64, tip: i64, n: nat)
    requires
        from <= tip,
        n <= tip - from + 1,
    ensures
        n <= tip - from ==> after_applied(CatchUpState::Applying { height: from, tip }, n)
            == (CatchUpState::Applying { height: (from + n) as i64, tip }),
        n == tip - from + 1 ==> after_applied(CatchUpState::Applying { height: from, tip }, n)
            == CatchUpState::ReadingTip,
    decreases n,
{
    if n > 0 {
        a_pass_applies_every_height_then_rereads_the_tip(from, tip, (n - 1) as nat);
    }
}

/// Whether `row` is what a block with hash `hash`, mined at `confirmed_at`,
/// writes for its transaction `tx`, first seen `seen_at`.
pub open spec fn confirmed_row(
    row: NewTransaction,
    tx: MinedTx,
    hash: Seq<char>,
    seen_at: i128,
    confirmed_at: i128,
) -> bool {
    &&& row.txid@ == tx.txid@
    &&& row.fee == Some(tx.fee_sats)
    &&& row.vsize == tx.vsize
    &&& row.first_seen_at == seen_at
    &&& row.confirmed_at == Some(confirmed_at)
    &&& row.cluster_id is None
    &&& row.confirmed_at_block matches Some(b) && b@ == hash
    &&& !row.hollow
    &&& row.input_txids matches Some(inputs) && string_views(inputs@) == string_views(
        tx.input_txids@,
    )
}

/// The transaction rows a mined block writes, one per transaction and in block
/// order: confirmed, fee and parents known, never hollow.
pub fn block_rows(hash: &String, txs: &Vec<MinedTx>, seen_at: i128, confirmed_at: i128) -> (rows: Vec<
    NewTransaction,
>)
    ensures
        rows@.len() == txs@.len(),
        forall|i: int|
            0 <= i < txs@.len() ==> confirmed_row(
                #[trigger] rows@[i],
                txs@[i],
                hash@,
                seen_at,
                confirmed_at,
            ),
{
    let mut rows: Vec<NewTransaction> = Vec::new();
    let mut i: usize = 0;
    while i < txs.len()
        invariant
            i <= txs@.len(),
            rows@.len() == i,
            forall|j: int|
                0 <= j < i ==> confirmed_row(
                    #[trigger] rows@[j],
                    txs@[j],
                    hash@,
                    seen_at,
                    confirmed_at,
                ),
        decreases txs@.len() - i,
    {
        let tx = &txs[i];
        let row = NewTransaction {
            txid: tx.txid.clone(),
            fee: Some(tx.fee_sats),
            vsize: tx.vsize,
            first_seen_at: seen_at,
            confirmed_at: Some(confirmed_at),
            cluster_id: None,
            confirmed_at_block: Some(hash.clone()),
            hollow: false,
            input_txids: Some(copy_strings(&tx.input_txids)),
        };
        rows.push(row);
        i = i + 1;
    }
    rows
}

/// The sum of the fees of `txs`.
pub open spec fn fee_total(txs: Seq<MinedTx>) -> int
    decreases txs.len(),
{
    if txs.len() == 0 {
        0
    } else {
        fee_total(txs.drop_last()) + txs.last().fee_sats
    }
}

/// Whether every running sum of `fee_total` over `txs` fits in an `i64`.
pub open spec fn fee_total_fits(txs: Seq<MinedTx>) -> bool {
    forall|k: int| 0 <= k <= txs.len() ==> i64::MIN <= #[trigger] fee_total(txs.take(k)) <= i64::MAX
}

/// What a block row records of its transactions: how many there are, and the
/// sum of their fees.
pub fn block_totals(txs: &Vec<MinedTx>) -> (totals: (i64, i64))
    requires
        txs@.len() <= i64::MAX,
        fee_total_fits(txs@),
    ensures
        totals.0 == txs@.len(),
        totals.1 == fee_total(txs@),
{
    let mut fee: i64 = 0;
    let mut i: usize = 0;
    while i < txs.len()
        invariant
            i <= txs@.len(),
            fee_total_fits(txs@),
            fee == fee_total(txs@.take(i as int)),
        decreases txs@.len() - i,
    {
        assert(txs@.take(i + 1).drop_last() =~= txs@.take(i as int));
        assert(i64::MIN <= fee_total(txs@.take(i + 1)) <= i64::MAX);
        fee = fee + txs[i].fee_sats;
        i = i + 1;
    }
    assert(txs@.take(txs@.len() as int) =~= txs@);
    (txs.len() as i64, fee)
}

} // verus!
