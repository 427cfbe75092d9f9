//! How far startup has got.
use vstd::prelude::*;

verus! {

/// How far startup has got.
#[derive(Debug, Clone, Copy, PartialEq, Eq)]
pub enum Phase {
    /// Node unreachable, still in initial block download, or still loading its mempool.
    WaitingForNode,
    /// Node is good; reconciling mempool and blocks.
    Bootstrapping,
    /// Bootstrap finished, watchers running.
    Ready,
}

impl Phase {
    /// Whether data routes may be served: only once bootstrap has finished.
    pub fn is_ready(self) -> (ready: bool)
        ensures
            ready == (self == Phase::Ready),
    {
        match self {
            Phase::Ready => true,
            _ => false,
        }
    }
}

/// What asking the node for its chain state found.
#[derive(Debug, Clone, Copy, PartialEq, Eq)]
pub enum ChainPoll {
    /// The node could not be reached.
    Unreachable,
    /// The node answered but is still in initial block download.
    Syncing,
    /// The node answered and has left initial block download.
    Synced,
}

/// What asking the node for its mempool state found.
#[derive(Debug, Clone, Copy, PartialEq, Eq)]
pub enum MempoolPoll {
    /// The request failed.
    Failed,
    /// The node is still loading its mempool.
    Loading,
    /// The node has loaded its mempool.
    Loaded,
}

/// What the startup wait does after a chain poll.
#[derive(Debug, Clone, Copy, PartialEq, Eq)]
pub enum ChainStep {
    /// Report the node unreachable, then sleep and poll again.
    ReportUnreachable,
    /// Report the node reachable, then sleep and poll again.
    ReportSyncing,
    /// Report the node reachable, then ask about its mempool.
    CheckMempool,
}

/// What the startup wait does after a mempool poll.
#[derive(Debug, Clone, Copy, PartialEq, Eq)]
pub enum MempoolStep {
    /// Record that the mempool is loaded, and stop waiting.
    Ready,
    /// Record that the mempool is still loading, then sleep and poll again.
    RecordLoading,
    /// Record nothing, then sleep and poll again.
    Retry,
}

/// The startup wait's step after a chain poll: only a node past initial block
/// download gets asked about its mempool.
pub fn chain_step(poll: ChainPoll) -> (step: ChainStep)
    ensures
        poll == ChainPoll::Unreachable ==> step == ChainStep::ReportUnreachable,
        poll == ChainPoll::Syncing ==> step == ChainStep::ReportSyncing,
        poll == ChainPoll::Synced ==> step == ChainStep::CheckMempool,
{
    match poll {
        ChainPoll::Unreachable => ChainStep::ReportUnreachable,
        ChainPoll::Syncing => ChainStep::ReportSyncing,
        ChainPoll::Synced => ChainStep::CheckMempool,
    }
}

/// The startup wait's step after a mempool poll: it ends once the mempool is
/// loaded, and only then.
pub fn mempool_step(poll: MempoolPoll) -> (step: MempoolStep)
    ensures
        poll == MempoolPoll::Loaded <==> step == MempoolStep::Ready,
        poll == MempoolPoll::Loading ==> step == MempoolStep::RecordLoading,
        poll == MempoolPoll::Failed ==> step == MempoolStep::Retry,
{
    match poll {
        MempoolPoll::Loaded => MempoolStep::Ready,
        MempoolPoll::Loading => MempoolStep::RecordLoading,
        MempoolPoll::Failed => MempoolStep::Retry,
    }
}

} // verus!
