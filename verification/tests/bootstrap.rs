use api::bootstrap::{
    bootstrap_completed_details, plan_mempool_reconciliation, MempoolReconciliation,
};
use api::details::DetailValue;
use api::models::MempoolEntry;

fn strings(s: &[&str]) -> Vec<String> {
    s.iter().map(|t| t.to_string()).collect()
}

fn entry(txid: &str, fee_in_sats: u64) -> MempoolEntry {
    MempoolEntry { txid: txid.to_string(), fee_in_sats, vsize: 100 }
}

#[test]
fn bootstrap_completed_details_reports_counts_when_reconciled() {
    let details = bootstrap_completed_details(
        250,
        Some(MempoolReconciliation { txs_added: 3, txs_removed: 1 }),
    );
    assert_eq!(details.get("duration_ms"), Some(&DetailValue::Number(250)));
    assert_eq!(details.get("txs_added"), Some(&DetailValue::Number(3)));
    assert_eq!(details.get("txs_removed"), Some(&DetailValue::Number(1)));
    assert!(details.get("reconciled").is_none());
}

#[test]
fn bootstrap_completed_details_reports_unreconciled_instead_of_zero_counts() {
    let details = bootstrap_completed_details(50, None);
    assert_eq!(details.get("duration_ms"), Some(&DetailValue::Number(50)));
    assert_eq!(details.get("reconciled"), Some(&DetailValue::Flag(false)));
    assert!(details.get("txs_added").is_none());
    assert!(details.get("txs_removed").is_none());
}

#[test]
fn reconciliation_reports_what_arrived_and_what_left_in_txid_order() {
    let prev = strings(&["b", "d", "a"]);
    let live = vec![entry("e", 5), entry("a", 1), entry("c", 3), entry("b", 2)];
    let plan = plan_mempool_reconciliation(&prev, &live, 77);
    assert_eq!(plan.live, strings(&["e", "a", "c", "b"]));
    assert_eq!(plan.added, strings(&["c", "e"]));
    assert_eq!(plan.removed, strings(&["d"]));
    let r = plan.reconciliation();
    assert_eq!((r.txs_added, r.txs_removed), (2, 1));
    let rows: Vec<(&str, Option<i64>, i128)> =
        plan.new_rows.iter().map(|t| (t.txid.as_str(), t.fee, t.first_seen_at)).collect();
    assert_eq!(rows, vec![("c", Some(3), 77), ("e", Some(5), 77)]);
}

#[test]
fn a_txid_listed_twice_counts_once_with_its_last_entry() {
    let live = vec![entry("a", 1), entry("a", 9)];
    let plan = plan_mempool_reconciliation(&Vec::new(), &live, 0);
    assert_eq!(plan.live, strings(&["a"]));
    assert_eq!(plan.added, strings(&["a"]));
    assert_eq!(plan.new_rows.len(), 1);
    assert_eq!(plan.new_rows[0].fee, Some(9));
}

#[test]
fn an_unchanged_mempool_reconciles_to_nothing() {
    let plan = plan_mempool_reconciliation(&strings(&["a", "b"]), &vec![entry("b", 1), entry("a", 1)], 0);
    assert!(plan.added.is_empty());
    assert!(plan.removed.is_empty());
    assert!(plan.new_rows.is_empty());
}
