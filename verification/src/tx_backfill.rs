//! Retry policy of the transaction backfill consumer: which failed fetches are
//! worth another attempt, and how long to wait before it.
use vstd::arithmetic::power2::pow2;
use vstd::bits::lemma_u32_shl_is_mul;
use vstd::prelude::*;

verus! {

/// Concurrent fetches the consumer runs at most.
pub const MAX_CONCURRENT_BACKFILLS: usize = 4;

/// Transient-failure retries before a request whose tx has left our mempool
/// snapshot is given up on. While the tx is still there the node still has it,
/// so this cap does not apply -- `HARD_MAX_ATTEMPTS` does.
pub const MAX_ATTEMPTS: u8 = 3;

/// Cap for the number of attempts to fetch a tx that is still in our mempool
/// snapshot: 8 retries reach the 60s ceiling (63.75s), 29 more make 30 minutes.
pub const HARD_MAX_ATTEMPTS: u8 = 37;

/// Backoff before the first retry, in milliseconds; doubles per attempt up to
/// `MAX_RETRY_BACKOFF_MS`.
pub const RETRY_BACKOFF_BASE_MS: u64 = 250;

/// Ceiling on the retry backoff, in milliseconds -- a down node should not be
/// polled harder than this.
pub const MAX_RETRY_BACKOFF_MS: u64 = 60_000;

/// One txid queued for enrichment from the node.
#[derive(Debug)]
pub struct BackfillRequest {
    pub txid: String,
    pub attempts: u8,
}

impl BackfillRequest {
    /// A request for `txid` that has not been attempted yet.
    pub fn new(txid: String) -> (req: Self)
        ensures
            req.txid == txid,
            req.attempts == 0,
    {
        Self { txid, attempts: 0 }
    }
}

/// Whether a transiently-failed request is worth another fetch.
pub open spec fn retry_allowed(attempts_made: int, in_mempool: bool) -> bool {
    attempts_made < MAX_ATTEMPTS || (in_mempool && attempts_made < HARD_MAX_ATTEMPTS)
}

/// Whether a transiently-failed request is worth another fetch. A tx still in our
/// mempool snapshot is still on the node, so the attempt cap does not apply to it --
/// only `HARD_MAX_ATTEMPTS` does.
pub fn should_retry(attempts_made: u8, in_mempool: bool) -> (retry: bool)
    ensures
        retry == retry_allowed(attempts_made as int, in_mempool),
{
    attempts_made < MAX_ATTEMPTS || (in_mempool && attempts_made < HARD_MAX_ATTEMPTS)
}

/// `base` doubled `attempts` times, capped at `cap`.
pub open spec fn capped_doubling(base: nat, cap: nat, attempts: nat) -> nat {
    let doubled = base * pow2(attempts);
    if doubled < cap { doubled } else { cap }
}

/// `2^attempts` as a `u32`, or `u32::MAX` once the shift would leave the width.
pub(crate) fn doubling_factor(attempts: u32) -> (factor: u32)
    ensures
        attempts < 32 ==> factor as nat == pow2(attempts as nat),
        attempts >= 32 ==> factor == u32::MAX,
{
    if attempts < 32 {
        proof {
            vstd::bits::lemma_u32_pow2_no_overflow(attempts as nat);
            lemma_u32_shl_is_mul(1, attempts);
        }
        1u32 << attempts
    } else {
        u32::MAX
    }
}

/// `base_ms` times `2^attempts`, capped at `cap_ms`; the doubling factor stops at
/// `u32::MAX` past the shift width, which lies far beyond any cap given here.
pub(crate) fn capped_backoff_ms(base_ms: u64, cap_ms: u64, attempts: u32) -> (ms: u64)
    requires
        0 < base_ms <= u32::MAX,
        cap_ms < base_ms * 256,
    ensures
        ms as nat == capped_doubling(base_ms as nat, cap_ms as nat, attempts as nat),
{
    let factor = doubling_factor(attempts);
    proof {
        vstd::arithmetic::power2::lemma_pow2_pos(attempts as nat);
        vstd::arithmetic::power2::lemma2_to64();
        if attempts >= 8 {
            if attempts > 8 {
                vstd::arithmetic::power2::lemma_pow2_strictly_increases(8, attempts as nat);
            }
            assert(base_ms * pow2(attempts as nat) >= base_ms * 256) by (nonlinear_arith)
                requires
                    pow2(attempts as nat) >= 256,
                    base_ms > 0,
            ;
        }
        assert(base_ms * (factor as nat) <= base_ms * (u32::MAX as nat)) by (nonlinear_arith)
            requires
                factor <= u32::MAX,
        ;
        assert(base_ms * (u32::MAX as nat) <= u64::MAX) by (nonlinear_arith)
            requires
                base_ms <= u32::MAX,
        ;
        assert(base_ms * (u32::MAX as nat) >= base_ms * 256) by (nonlinear_arith)
            requires
                base_ms > 0,
        ;
    }
    let scaled = base_ms * (factor as u64);
    if scaled < cap_ms {
        scaled
    } else {
        cap_ms
    }
}

/// Doubles per attempt up to the ceiling: 250ms, 500ms, 1s, 2s ... 60s. In
/// milliseconds.
pub fn retry_backoff(attempts: u8) -> (ms: u64)
    ensures
        ms as nat == capped_doubling(
            RETRY_BACKOFF_BASE_MS as nat,
            MAX_RETRY_BACKOFF_MS as nat,
            attempts as nat,
        ),
{
    capped_backoff_ms(RETRY_BACKOFF_BASE_MS, MAX_RETRY_BACKOFF_MS, attempts as u32)
}

/// What fetching a queued txid from the node came to.
#[derive(Debug, Clone, Copy, PartialEq, Eq)]
pub enum FetchOutcome {
    /// The node returned the transaction.
    Fetched,
    /// The node no longer has it in its mempool: confirmed or evicted first.
    NotInMempool,
    /// The fetch failed for a reason that may pass.
    Failed,
}

/// What the consumer does with a request after its fetch.
#[derive(Debug)]
pub enum BackfillStep {
    /// Write the fetched transaction into its row.
    Persist,
    /// Nothing to do: the block path, if any, already wrote the complete row.
    Drop,
    /// Wait `delay_ms`, then queue `request` again.
    Retry { delay_ms: u64, request: BackfillRequest },
    /// Stop trying after `attempts_made` attempts.
    GiveUp { attempts_made: u8 },
}

/// The consumer's decision for `req` after a fetch that came to `outcome`, the
/// tx being still in our mempool snapshot or not (`in_mempool`): a failed fetch
/// is retried, counting one more attempt, after the backoff of the attempts
/// made before it -- or given up on once retries are no longer allowed.
pub fn after_fetch(req: BackfillRequest, outcome: FetchOutcome, in_mempool: bool) -> (step:
    BackfillStep)
    requires
        outcome == FetchOutcome::Failed ==> req.attempts < u8::MAX,
    ensures
        outcome == FetchOutcome::Fetched ==> step is Persist,
        outcome == FetchOutcome::NotInMempool ==> step is Drop,
        outcome == FetchOutcome::Failed ==> if retry_allowed(req.attempts + 1, in_mempool) {
            step matches BackfillStep::Retry { delay_ms, request } && delay_ms as nat
                == capped_doubling(
                RETRY_BACKOFF_BASE_MS as nat,
                MAX_RETRY_BACKOFF_MS as nat,
                req.attempts as nat,
            ) && request.txid == req.txid && request.attempts == req.attempts + 1
        } else {
            step matches BackfillStep::GiveUp { attempts_made } && attempts_made == req.attempts + 1
        },
{
    match outcome {
        FetchOutcome::Fetched => BackfillStep::Persist,
        FetchOutcome::NotInMempool => BackfillStep::Drop,
        FetchOutcome::Failed => {
            let attempts_made = req.attempts + 1;
            if should_retry(attempts_made, in_mempool) {
                let delay_ms = retry_backoff(req.attempts);
                BackfillStep::Retry {
                    delay_ms,
                    request: BackfillRequest { txid: req.txid, attempts: attempts_made },
                }
            } else {
                BackfillStep::GiveUp { attempts_made }
            }
        },
    }
}

/// The backoff doubles per attempt until it reaches the ceiling, then stays
/// there.
pub proof fn backoff_doubles_until_the_ceiling(base: nat, cap: nat, attempts: nat)
    ensures
        capped_doubling(base, cap, attempts + 1) == if 2 * capped_doubling(base, cap, attempts)
            < cap {
            2 * capped_doubling(base, cap, attempts)
        } else {
            cap
        },
{
    vstd::arithmetic::power2::lemma_pow2_unfold(attempts + 1);
    assert(base * pow2(attempts + 1) == 2 * (base * pow2(attempts))) by (nonlinear_arith)
        requires
            pow2(attempts + 1) == 2 * pow2(attempts),
    ;
}

/// The backoff never exceeds its ceiling, and never shrinks from one attempt to
/// the next.
pub proof fn backoff_is_capped_and_never_shrinks(base: nat, cap: nat, attempts: nat)
    ensures
        capped_doubling(base, cap, attempts) <= cap,
        capped_doubling(base, cap, attempts) <= capped_doubling(base, cap, attempts + 1),
{
    backoff_doubles_until_the_ceiling(base, cap, attempts);
}

/// Once a request is given up on, it stays given up on: more attempts never
/// make a retry allowed again.
pub proof fn giving_up_is_final(attempts_made: int, more: int, in_mempool: bool)
    requires
        !retry_allowed(attempts_made, in_mempool),
        more >= attempts_made,
    ensures
        !retry_allowed(more, in_mempool),
{
}

} // verus!
