use api::models::{
    ClusterStatus, DeltaDirection, DeltaReason, MempoolEntry, NewTransaction, RawTransaction,
    SystemEventKind,
};

fn raw_tx(inputs: &[&str]) -> RawTransaction {
    RawTransaction {
        txid: "deadbeef".to_string(),
        vsize: 141,
        input_txids: inputs.iter().map(|s| s.to_string()).collect(),
    }
}

fn entry(txid: &str, fee_in_sats: u64, vsize: u32) -> MempoolEntry {
    MempoolEntry { txid: txid.to_string(), fee_in_sats, vsize }
}

#[test]
fn all_covers_every_variant() {
    assert_eq!(DeltaReason::all().len(), 3);
}

#[test]
fn system_event_kind_all_covers_every_variant() {
    assert_eq!(SystemEventKind::all().len(), 7);
}

#[test]
fn cluster_status_all_covers_every_variant() {
    assert_eq!(ClusterStatus::all().len(), 4);
}

#[test]
fn with_direction_selects_matching_reasons() {
    assert_eq!(DeltaReason::with_direction(DeltaDirection::Add), vec![DeltaReason::AddMempool]);
    assert_eq!(
        DeltaReason::with_direction(DeltaDirection::Remove),
        vec![DeltaReason::RemoveConfirmed, DeltaReason::RemoveEvicted]
    );
}

#[test]
fn each_reason_has_its_direction() {
    assert_eq!(DeltaReason::AddMempool.direction(), DeltaDirection::Add);
    assert_eq!(DeltaReason::RemoveConfirmed.direction(), DeltaDirection::Remove);
    assert_eq!(DeltaReason::RemoveEvicted.direction(), DeltaDirection::Remove);
}

fn now() -> i128 {
    time::OffsetDateTime::now_utc().unix_timestamp_nanos()
}

#[test]
fn raw_tx_first_seen_at_is_our_clock_not_the_node_time() {
    let before = now();
    assert!(NewTransaction::from_raw_transaction(&raw_tx(&["parent"])).first_seen_at >= before);
    assert_eq!(NewTransaction::from_raw_transaction_at(&raw_tx(&["parent"]), 1_234).first_seen_at, 1_234);
}

#[test]
fn hollow_always_fills_first_seen_at() {
    let before = now();
    let tx = NewTransaction::hollow("deadbeef");
    assert!(tx.first_seen_at >= before);
    assert_eq!(NewTransaction::hollow_at("deadbeef", 99).first_seen_at, 99);
}

#[test]
fn parent_txids_come_from_the_vin_and_hollow_rows_have_none() {
    assert_eq!(
        NewTransaction::from_raw_transaction(&raw_tx(&["p1", "p2"])).input_txids,
        Some(vec!["p1".to_string(), "p2".to_string()])
    );
    assert_eq!(NewTransaction::from_mempool_entry(&entry("deadbeef", 1, 1)).input_txids, None);
    assert_eq!(NewTransaction::hollow("deadbeef").input_txids, None);
}

#[test]
fn hollow_is_flagged_and_retrieved_is_not() {
    assert!(NewTransaction::hollow("deadbeef").hollow);
    assert!(!NewTransaction::from_raw_transaction(&raw_tx(&["parent"])).hollow);
}

#[test]
fn only_rows_the_node_can_still_enrich_need_backfill() {
    assert!(NewTransaction::from_mempool_entry(&entry("deadbeef", 1, 1)).needs_backfill());
    assert!(NewTransaction::hollow("deadbeef").needs_backfill());
    assert!(!NewTransaction::from_raw_transaction(&raw_tx(&["parent"])).needs_backfill());
}

#[test]
fn sorted_by_txid_orders_ascending() {
    let txs = vec![
        NewTransaction::hollow("c"),
        NewTransaction::hollow("a"),
        NewTransaction::hollow("b"),
    ];
    let sorted = NewTransaction::sorted_by_txid(&txs);
    let txids: Vec<&str> = sorted.iter().map(|tx| tx.txid.as_str()).collect();
    assert_eq!(txids, vec!["a", "b", "c"]);
}

#[test]
fn sorted_by_txid_keeps_every_row() {
    let mut first = NewTransaction::hollow_at("b", 1);
    first.vsize = 10;
    let mut second = NewTransaction::hollow_at("b", 2);
    second.vsize = 20;
    let txs = vec![first, NewTransaction::hollow_at("ab", 0), second, NewTransaction::hollow("a")];
    let sorted = NewTransaction::sorted_by_txid(&txs);
    let txids: Vec<&str> = sorted.iter().map(|tx| tx.txid.as_str()).collect();
    assert_eq!(txids, vec!["a", "ab", "b", "b"]);
    let mut vsizes = vec![sorted[2].vsize, sorted[3].vsize];
    vsizes.sort();
    assert_eq!(vsizes, vec![10, 20]);
}

#[test]
fn a_row_with_parents_but_no_vsize_still_needs_backfill() {
    let mut tx = NewTransaction::from_raw_transaction(&raw_tx(&["parent"]));
    tx.vsize = 0;
    assert!(tx.needs_backfill());
}

#[test]
fn mempool_entry_carries_fee_and_vsize() {
    let tx = NewTransaction::from_mempool_entry(&entry("deadbeef", 1234, 250));
    assert_eq!(tx.txid, "deadbeef");
    assert_eq!(tx.fee, Some(1234));
    assert_eq!(tx.vsize, 250);
    assert!(!tx.hollow);
}

#[test]
fn mempool_entry_first_seen_at_is_our_clock_not_the_node_time() {
    let before = now();
    assert!(NewTransaction::from_mempool_entry(&entry("deadbeef", 1, 1)).first_seen_at >= before);
    assert_eq!(NewTransaction::from_mempool_entry_at(&entry("deadbeef", 1, 1), 1_700).first_seen_at, 1_700);
}

#[test]
fn a_copied_row_is_the_same_row() {
    let tx = NewTransaction::from_raw_transaction_at(&raw_tx(&["p"]), 5);
    let copy = tx.copied();
    assert_eq!(copy.txid, tx.txid);
    assert_eq!(copy.input_txids, tx.input_txids);
    assert_eq!(copy.first_seen_at, 5);
}
