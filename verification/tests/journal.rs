use api::journal::{
    tick_plan, FlushOutcome,
    admission_rows, delta_rows, distinct_txids, hollow_rows, reconstruct_snapshot, JournalEntry,
};
use api::models::{DeltaDirection, DeltaReason};

fn strings(s: &[&str]) -> Vec<String> {
    s.iter().map(|t| t.to_string()).collect()
}

fn add(txid: &str) -> JournalEntry {
    JournalEntry { txid: txid.to_string(), direction: DeltaDirection::Add }
}

fn remove(txid: &str) -> JournalEntry {
    JournalEntry { txid: txid.to_string(), direction: DeltaDirection::Remove }
}

#[test]
fn distinct_txids_keep_the_first_occurrence_of_each() {
    let entries = vec![add("a"), remove("x"), add("b"), add("a"), remove("y")];
    assert_eq!(distinct_txids(&entries, DeltaDirection::Add), strings(&["a", "b"]));
    assert_eq!(distinct_txids(&entries, DeltaDirection::Remove), strings(&["x", "y"]));
}

#[test]
fn removals_are_confirmations_only_for_confirmed_txids() {
    let entries = vec![add("a"), remove("b"), remove("c"), remove("c")];
    let (rows, evicted) = delta_rows(&entries, &strings(&["b"]));
    let reasons: Vec<DeltaReason> = rows.iter().map(|r| r.reason).collect();
    assert_eq!(
        reasons,
        vec![
            DeltaReason::AddMempool,
            DeltaReason::RemoveConfirmed,
            DeltaReason::RemoveEvicted,
            DeltaReason::RemoveEvicted,
        ]
    );
    assert_eq!(rows[2].txid, "c");
    assert_eq!(evicted, strings(&["c"]));
}

#[test]
fn only_unstored_adds_get_hollow_rows() {
    let (new_txids, rows) = hollow_rows(&strings(&["a", "b", "c"]), &strings(&["b"]), 42);
    assert_eq!(new_txids, strings(&["a", "c"]));
    assert_eq!(rows.len(), 2);
    assert!(rows.iter().all(|r| r.hollow && r.first_seen_at == 42 && r.vsize == 0));
    assert_eq!(rows[1].txid, "c");
}

#[test]
fn admission_writes_one_add_per_txid() {
    let rows = admission_rows(&strings(&["a", "b"]));
    assert_eq!(rows.len(), 2);
    assert!(rows.iter().all(|r| r.reason == DeltaReason::AddMempool));
    assert_eq!(rows[1].txid, "b");
}

#[test]
fn replaying_the_log_keeps_what_was_last_added() {
    let log = vec![
        ("a".to_string(), DeltaReason::AddMempool),
        ("b".to_string(), DeltaReason::AddMempool),
        ("a".to_string(), DeltaReason::RemoveConfirmed),
        ("c".to_string(), DeltaReason::RemoveEvicted),
        ("b".to_string(), DeltaReason::AddMempool),
        ("d".to_string(), DeltaReason::AddMempool),
        ("d".to_string(), DeltaReason::RemoveEvicted),
        ("a".to_string(), DeltaReason::AddMempool),
    ];
    let mut snapshot = reconstruct_snapshot(&log);
    snapshot.sort();
    assert_eq!(snapshot, strings(&["a", "b"]));
}

#[test]
fn an_empty_log_replays_to_an_empty_mempool() {
    assert!(reconstruct_snapshot(&Vec::new()).is_empty());
}

#[test]
fn a_flush_writes_every_entry_and_hollows_only_new_adds() {
    let entries = vec![add("a"), add("b"), remove("c"), add("a"), remove("d")];
    let plan = api::journal::plan_flush(&entries, &strings(&["d"]), &strings(&["b"]), 5);
    assert_eq!(plan.delta_rows.len(), 5);
    assert_eq!(plan.delta_rows[4].reason, DeltaReason::RemoveConfirmed);
    assert_eq!(plan.delta_rows[2].reason, DeltaReason::RemoveEvicted);
    assert_eq!(plan.outcome.evicted, strings(&["c"]));
    assert_eq!(plan.outcome.new_txids, strings(&["a"]));
    assert_eq!(plan.hollow_rows.len(), 1);
    assert_eq!(plan.hollow_rows[0].first_seen_at, 5);
}

#[test]
fn an_empty_batch_writes_nothing() {
    let plan = api::journal::plan_flush(&Vec::new(), &Vec::new(), &Vec::new(), 0);
    assert!(plan.delta_rows.is_empty());
    assert!(plan.hollow_rows.is_empty());
    assert!(plan.outcome.new_txids.is_empty());
    assert!(plan.outcome.evicted.is_empty());
}

#[test]
fn a_failed_write_commits_enqueues_and_publishes_nothing() {
    let plan = tick_plan(None, strings(&["a"]), (strings(&["a"]), strings(&["b"])));
    assert!(!plan.commit);
    assert!(plan.enqueue.is_empty());
    assert!(plan.publish.is_none());
    assert!(plan.sync.is_none());
}

#[test]
fn a_written_batch_commits_then_enqueues_publishes_and_syncs() {
    let outcome = FlushOutcome { new_txids: strings(&["n1", "n2"]), evicted: strings(&["e"]) };
    let plan = tick_plan(Some(outcome), strings(&["a", "n1"]), (strings(&["a"]), strings(&["e"])));
    assert!(plan.commit);
    assert_eq!(plan.enqueue, strings(&["n1", "n2"]));
    assert_eq!(plan.publish, Some((strings(&["a"]), strings(&["e"]))));
    assert_eq!(plan.sync, Some((strings(&["a", "n1"]), strings(&["e"]))));
}
