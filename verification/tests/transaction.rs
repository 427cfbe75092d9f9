use api::transaction::{lookup, Transaction};

fn tx_row(txid: &str, input_txids: Option<Vec<String>>) -> Transaction {
    Transaction {
        txid: txid.to_string(),
        fee: None,
        vsize: 0,
        first_seen_at: 0,
        confirmed_at: None,
        cluster_id: None,
        confirmed_at_block: None,
        hollow: true,
        input_txids,
    }
}

#[test]
fn transaction_ref_preserves_the_three_input_txids_states() {
    assert_eq!(tx_row("deadbeef", None).to_ref().input_txids, None);
    assert_eq!(tx_row("deadbeef", Some(vec![])).to_ref().input_txids, Some(vec![]));
    assert_eq!(
        tx_row("deadbeef", Some(vec!["p".to_string()])).to_ref().input_txids,
        Some(vec!["p".to_string()])
    );
}

#[test]
fn lookup_answers_in_request_order_and_lists_the_missing() {
    let rows = vec![tx_row("b", None), tx_row("a", None)];
    let txids = vec!["a".to_string(), "x".to_string(), "b".to_string()];
    let res = lookup(&txids, &rows);
    let found: Vec<&str> = res.found.iter().map(|t| t.txid.as_str()).collect();
    assert_eq!(found, vec!["a", "b"]);
    assert_eq!(res.missing, vec!["x".to_string()]);
}

#[test]
fn a_repeated_request_is_answered_once_and_then_counted_missing() {
    let rows = vec![tx_row("a", None)];
    let txids = vec!["a".to_string(), "a".to_string()];
    let res = lookup(&txids, &rows);
    assert_eq!(res.found.len(), 1);
    assert_eq!(res.missing, vec!["a".to_string()]);
}

#[test]
fn the_last_row_for_a_txid_answers() {
    let mut first = tx_row("a", None);
    first.vsize = 1;
    let mut second = tx_row("a", None);
    second.vsize = 2;
    let res = lookup(&vec!["a".to_string()], &vec![first, second]);
    assert_eq!(res.found[0].vsize, 2);
}

#[test]
fn totals_count_an_unknown_fee_as_zero() {
    let rows = vec![(Some(100), 200), (None, 150), (Some(50), 0)];
    assert_eq!(api::transaction::fee_vsize_totals(&rows), (150, 350));
    assert_eq!(api::transaction::fee_vsize_totals(&Vec::new()), (0, 0));
}
