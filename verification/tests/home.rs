use api::home::{chain_tip, mempool_stats, ChainTip};

#[test]
fn a_failed_rate_count_reads_as_zero() {
    let stats = mempool_stats(12, 3, None);
    assert_eq!((stats.mempool_size, stats.cluster_count, stats.tx_per_min), (12, 3, 0));
    assert_eq!(mempool_stats(12, 3, Some(40)).tx_per_min, 40);
}

#[test]
fn the_chain_tip_is_the_newest_stored_block() {
    assert_eq!(chain_tip(Some(Some((800_000, 5)))), Some(ChainTip { height: 800_000, mined_at: 5 }));
    assert_eq!(chain_tip(Some(None)), None);
    assert_eq!(chain_tip(None), None);
}
