use api::readiness::{chain_step, mempool_step, ChainPoll, ChainStep, MempoolPoll, MempoolStep, Phase};

#[test]
fn only_the_ready_phase_serves_data() {
    assert!(!Phase::WaitingForNode.is_ready());
    assert!(!Phase::Bootstrapping.is_ready());
    assert!(Phase::Ready.is_ready());
}

#[test]
fn waits_through_unreachable_ibd_and_mempool_load() {
    assert_eq!(chain_step(ChainPoll::Unreachable), ChainStep::ReportUnreachable);
    assert_eq!(chain_step(ChainPoll::Syncing), ChainStep::ReportSyncing);
    assert_eq!(chain_step(ChainPoll::Synced), ChainStep::CheckMempool);
    assert_eq!(mempool_step(MempoolPoll::Failed), MempoolStep::Retry);
    assert_eq!(mempool_step(MempoolPoll::Loading), MempoolStep::RecordLoading);
    assert_eq!(mempool_step(MempoolPoll::Loaded), MempoolStep::Ready);
}

#[test]
fn returns_immediately_when_already_synced() {
    assert_eq!(chain_step(ChainPoll::Synced), ChainStep::CheckMempool);
    assert_eq!(mempool_step(MempoolPoll::Loaded), MempoolStep::Ready);
}
