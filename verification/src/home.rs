//! The home page's live figures: mempool statistics and the chain tip.
use vstd::prelude::*;

verus! {

/// Seconds of the rolling window the arrival rate counts over.
pub const RATE_WINDOW_SECS: i64 = 60;

/// The mempool statistics frame.
#[derive(Debug, Clone, Copy, PartialEq, Eq)]
pub struct MempoolStats {
    pub mempool_size: i64,
    pub cluster_count: i64,
    /// Transactions that entered the mempool during the last `RATE_WINDOW_SECS`.
    pub tx_per_min: i64,
}

/// The newest block: its height and when it was mined (unix nanoseconds).
#[derive(Debug, Clone, Copy, PartialEq, Eq)]
pub struct ChainTip {
    pub height: i64,
    pub mined_at: i128,
}

/// The statistics frame from the live mempool's size, the active cluster count
/// and the count of recent adds; a failed count reads as zero, so the frame is
/// still sent. Sizes are stored as `i64`, truncating as `as` does.
pub fn mempool_stats(mempool_size: usize, cluster_count: usize, recent_adds: Option<i64>) -> (stats:
    MempoolStats)
    ensures
        stats.mempool_size == mempool_size as i64,
        stats.cluster_count == cluster_count as i64,
        stats.tx_per_min == match recent_adds {
            Some(n) => n,
            None => 0,
        },
{
    let tx_per_min = match recent_adds {
        Some(n) => n,
        None => 0,
    };
    MempoolStats {
        mempool_size: mempool_size as i64,
        cluster_count: cluster_count as i64,
        tx_per_min,
    }
}

/// The chain tip from the newest stored block, if the read found one; a failed
/// read gives none, as an empty table does.
pub fn chain_tip(latest: Option<Option<(i64, i128)>>) -> (tip: Option<ChainTip>)
    ensures
        match latest {
            Some(Some((height, mined_at))) => tip == Some(ChainTip { height, mined_at }),
            _ => tip is None,
        },
{
    match latest {
        Some(Some((height, mined_at))) => Some(ChainTip { height, mined_at }),
        _ => None,
    }
}

} // verus!
