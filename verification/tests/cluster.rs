use api::cluster::{
    closing_delta, confirmation_delta, eviction_action, insertion_delta, membership_delta,
    merge_plan, mined_outcome, publishable_delta, upsert_round_step, upsert_start, CandidateSweep,
    Cluster, ClusterDeltaSet, ClusterGroup, ClusterRef, EvictionAction, MinedOutcome, MinedTx,
    UpsertAction, UpsertEvent, UpsertState,
};
use api::cluster::{
    confirm_round_step, confirm_start, evict_round_step, evict_start, mined_sums_fit_check,
    ConfirmAction, ConfirmEvent, ConfirmStage, ConfirmState, EvictAction, EvictEvent, EvictStage,
    EvictState,
};

fn sorted(set: impl IntoIterator<Item = i64>) -> Vec<i64> {
    let mut v: Vec<i64> = set.into_iter().collect();
    v.sort();
    v
}

fn cluster(id: i64) -> Cluster {
    Cluster {
        id,
        txids: Vec::new(),
        total_vsize: 0,
        total_fee: 0,
        first_seen_at: None,
        confirmed_at: None,
    }
}

fn strings(s: &[&str]) -> Vec<String> {
    s.iter().map(|t| t.to_string()).collect()
}

fn members(id: i64, txids: &[&str]) -> Cluster {
    Cluster {
        id,
        txids: strings(txids),
        total_vsize: 300,
        total_fee: 900,
        first_seen_at: Some(10),
        confirmed_at: None,
    }
}

#[test]
fn marking_upserted_then_removed_keeps_only_removed() {
    let mut changes = ClusterDeltaSet::new();
    changes.mark_upserted(&cluster(1));
    changes.mark_removed(1);
    assert!(changes.upserted.is_empty());
    assert_eq!(sorted(changes.removed), vec![1]);
}

#[test]
fn marking_removed_then_upserted_keeps_only_upserted() {
    let mut changes = ClusterDeltaSet::new();
    changes.mark_removed(1);
    changes.mark_upserted(&cluster(1));
    assert!(changes.removed.is_empty());
    assert_eq!(sorted(changes.upserted.into_keys()), vec![1]);
}

#[test]
fn merge_unions_disjoint_ids() {
    let mut base = ClusterDeltaSet::new();
    base.mark_upserted(&cluster(1));
    base.mark_removed(2);

    let mut other = ClusterDeltaSet::new();
    other.mark_upserted(&cluster(3));
    other.mark_removed(4);

    base.merge(other);
    assert_eq!(sorted(base.upserted.into_keys()), vec![1, 3]);
    assert_eq!(sorted(base.removed), vec![2, 4]);
}

#[test]
fn merge_lets_other_win_on_conflicts() {
    let mut base = ClusterDeltaSet::new();
    base.mark_upserted(&cluster(1));
    base.mark_removed(2);

    let mut other = ClusterDeltaSet::new();
    other.mark_removed(1);
    other.mark_upserted(&cluster(2));

    base.merge(other);
    assert_eq!(sorted(base.upserted.into_keys()), vec![2]);
    assert_eq!(sorted(base.removed), vec![1]);
}

#[test]
fn merging_an_empty_round_changes_nothing() {
    let mut base = ClusterDeltaSet::new();
    base.mark_upserted(&cluster(1));
    base.mark_removed(2);
    base.merge(ClusterDeltaSet::new());
    assert_eq!(sorted(base.upserted.into_keys()), vec![1]);
    assert_eq!(sorted(base.removed), vec![2]);
}

#[test]
fn a_fresh_delta_set_is_empty() {
    let mut changes = ClusterDeltaSet::new();
    assert!(changes.is_empty());
    changes.mark_removed(5);
    assert!(!changes.is_empty());
}

#[test]
fn an_upserted_cluster_keeps_its_members_and_totals() {
    let mut changes = ClusterDeltaSet::new();
    changes.mark_upserted(&members(7, &["a", "b"]));
    let r = &changes.upserted[&7];
    assert_eq!(r.id, 7);
    assert_eq!(r.txids, strings(&["a", "b"]));
    assert_eq!(r.total_vsize, 300);
    assert_eq!(r.total_fee, 900);
}

#[test]
fn eviction_leaves_confirmed_and_untouched_clusters_alone() {
    let mut confirmed = members(1, &["a", "b", "c"]);
    confirmed.confirmed_at = Some(5);
    assert!(matches!(eviction_action(&confirmed, &strings(&["a"])), EvictionAction::Keep));
    assert!(matches!(
        eviction_action(&members(1, &["a", "b", "c"]), &strings(&["x"])),
        EvictionAction::Keep
    ));
    assert!(matches!(eviction_action(&members(1, &[]), &strings(&["a"])), EvictionAction::Keep));
}

#[test]
fn eviction_closes_a_cluster_left_with_one_member() {
    assert!(matches!(
        eviction_action(&members(1, &["a", "b"]), &strings(&["a"])),
        EvictionAction::Close
    ));
}

#[test]
fn eviction_shrinks_a_cluster_to_its_remaining_members() {
    match eviction_action(&members(1, &["a", "b", "c"]), &strings(&["b"])) {
        EvictionAction::Shrink(rest) => assert_eq!(rest, strings(&["a", "c"])),
        other => panic!("expected a shrink, got {other:?}"),
    }
}

#[test]
fn a_closing_delta_takes_every_member_and_the_totals_out() {
    let d = closing_delta(&members(4, &["a", "b"]));
    assert_eq!(d.cluster_id, 4);
    assert!(d.added_txids.is_empty());
    assert_eq!(d.removed_txids, strings(&["a", "b"]));
    assert_eq!(d.fee_delta, -900);
    assert_eq!(d.vsize_delta, -300);
}

#[test]
fn reconfirming_or_confirming_an_empty_cluster_logs_nothing() {
    let mut confirmed = members(4, &["a", "b"]);
    confirmed.confirmed_at = Some(1);
    assert!(confirmation_delta(&confirmed).is_none());
    assert!(confirmation_delta(&members(4, &[])).is_none());
    assert!(confirmation_delta(&members(4, &["a", "b"])).is_some());
}

#[test]
fn membership_delta_records_joins_leaves_and_total_changes() {
    let old = members(3, &["a", "b"]);
    let d = membership_delta(&old, &strings(&["b", "c"]), 350, 1000).expect("a change");
    assert_eq!(d.cluster_id, 3);
    assert_eq!(d.added_txids, strings(&["c"]));
    assert_eq!(d.removed_txids, strings(&["a"]));
    assert_eq!(d.fee_delta, 100);
    assert_eq!(d.vsize_delta, 50);
}

#[test]
fn an_unchanged_membership_logs_nothing() {
    let old = members(3, &["a", "b"]);
    assert!(membership_delta(&old, &strings(&["b", "a"]), 300, 900).is_none());
}

#[test]
fn an_insertion_delta_adds_every_member() {
    let d = insertion_delta(&members(9, &["a", "b"]));
    assert_eq!(d.cluster_id, 9);
    assert_eq!(d.added_txids, strings(&["a", "b"]));
    assert!(d.removed_txids.is_empty());
    assert_eq!(d.fee_delta, 900);
    assert_eq!(d.vsize_delta, 300);
}

fn block(txs: &[(&str, i64, i64)]) -> Vec<MinedTx> {
    txs.iter()
        .map(|(t, fee, vsize)| MinedTx {
            txid: t.to_string(),
            fee_sats: *fee,
            vsize: *vsize,
            input_txids: Vec::new(),
        })
        .collect()
}

#[test]
fn a_fully_mined_cluster_is_confirmed_as_it_is() {
    let b = block(&[("a", 10, 100), ("b", 20, 200), ("x", 1, 1)]);
    assert!(matches!(mined_outcome(&members(1, &["a", "b"]), &b), MinedOutcome::FullyConfirmed));
}

#[test]
fn a_partly_mined_cluster_keeps_the_mined_members_and_their_totals() {
    let b = block(&[("a", 10, 100), ("c", 30, 300)]);
    match mined_outcome(&members(1, &["a", "b", "c"]), &b) {
        MinedOutcome::Partial { confirmed, unconfirmed, total_fee, total_vsize } => {
            assert_eq!(confirmed, strings(&["a", "c"]));
            assert_eq!(unconfirmed, strings(&["b"]));
            assert_eq!(total_fee, 40);
            assert_eq!(total_vsize, 400);
        }
        other => panic!("expected a partial confirmation, got {other:?}"),
    }
}

#[test]
fn a_repeated_block_txid_counts_its_last_entry() {
    let b = block(&[("a", 10, 100), ("a", 15, 150)]);
    match mined_outcome(&members(1, &["a", "b"]), &b) {
        MinedOutcome::Partial { total_fee, total_vsize, .. } => {
            assert_eq!(total_fee, 15);
            assert_eq!(total_vsize, 150);
        }
        other => panic!("expected a partial confirmation, got {other:?}"),
    }
}

#[test]
fn merging_keeps_the_earliest_cluster_and_closes_the_rest() {
    let mut c1 = members(1, &["a"]);
    c1.first_seen_at = Some(30);
    let mut c2 = members(2, &["b"]);
    c2.first_seen_at = Some(10);
    let mut c3 = members(3, &["c"]);
    c3.first_seen_at = Some(10);
    let (keep, closed) = merge_plan(&vec![c1, c2, c3]).expect("a plan");
    assert_eq!(keep, 2);
    assert_eq!(closed, vec![1, 3]);
}

#[test]
fn a_cluster_of_unknown_age_counts_as_earliest() {
    let mut c1 = members(1, &["a"]);
    c1.first_seen_at = Some(5);
    let mut c2 = members(2, &["b"]);
    c2.first_seen_at = None;
    let (keep, closed) = merge_plan(&vec![c1, c2]).expect("a plan");
    assert_eq!(keep, 2);
    assert_eq!(closed, vec![1]);
}

#[test]
fn no_existing_cluster_means_no_merge() {
    assert!(merge_plan(&Vec::new()).is_none());
}

#[test]
fn a_candidate_sweep_skips_txids_a_fetched_cluster_covered() {
    let mut sweep = CandidateSweep::new();
    let a = "a".to_string();
    assert!(sweep.needs_fetch(&a));
    assert!(sweep.record(&strings(&["a", "b"]), 2));
    assert!(!sweep.needs_fetch(&"b".to_string()));
    assert!(sweep.needs_fetch(&"c".to_string()));
    assert!(!sweep.record(&strings(&["c"]), 1));
    assert!(!sweep.needs_fetch(&"c".to_string()));
}

#[test]
fn a_batch_of_new_clusters_logs_one_insertion_each() {
    let ds = api::cluster::insertion_deltas(&vec![members(1, &["a", "b"]), members(2, &["c", "d"])]);
    assert_eq!(ds.len(), 2);
    assert_eq!(ds[1].cluster_id, 2);
    assert_eq!(ds[1].added_txids, strings(&["c", "d"]));
    assert_eq!(ds[0].fee_delta, 900);
}

#[test]
fn confirming_twice_writes_nothing_new() {
    let (first, d1) = api::cluster::confirm_cluster(&members(4, &["a", "b"]), 100);
    assert_eq!(first.confirmed_at, Some(100));
    assert_eq!(first.txids, strings(&["a", "b"]));
    let d1 = d1.expect("a first confirmation closes the membership");
    assert_eq!(d1.removed_txids, strings(&["a", "b"]));
    assert_eq!((d1.fee_delta, d1.vsize_delta), (-900, -300));
    let (second, d2) = api::cluster::confirm_cluster(&first, 200);
    assert_eq!(second.confirmed_at, Some(100));
    assert_eq!(second.total_fee, 900);
    assert!(d2.is_none());
}

#[test]
fn confirming_an_empty_cluster_logs_nothing() {
    let (row, d) = api::cluster::confirm_cluster(&members(4, &[]), 7);
    assert_eq!(row.confirmed_at, Some(7));
    assert!(d.is_none());
}

fn seen(id: i64, at: Option<i128>) -> Cluster {
    Cluster { first_seen_at: at, ..cluster(id) }
}

fn group(txids: &[&str]) -> ClusterGroup {
    ClusterGroup { txids: strings(txids), total_vsize: 450, total_fee: 1200 }
}

fn replace_of(id: i64, g: &ClusterGroup) -> UpsertAction {
    UpsertAction::Replace {
        id,
        members: g.txids.clone(),
        total_vsize: g.total_vsize,
        total_fee: g.total_fee,
    }
}

#[test]
fn an_unknown_group_is_inserted_and_marked_upserted() {
    let g = group(&["a", "b"]);
    let mut changes = ClusterDeltaSet::new();
    let (state, action) = upsert_start(&g);
    assert_eq!(action, UpsertAction::FindExisting(strings(&["a", "b"])));
    let (state, action) = upsert_round_step(&g, state, UpsertEvent::ExistingFound(vec![]), &mut changes);
    assert_eq!(
        action,
        UpsertAction::Insert { txids: strings(&["a", "b"]), total_vsize: 450, total_fee: 1200 }
    );
    let (state, action) =
        upsert_round_step(&g, state, UpsertEvent::Inserted(members(9, &["a", "b"])), &mut changes);
    assert!(matches!(state, UpsertState::Done));
    assert_eq!(action, UpsertAction::Finish);
    assert_eq!(sorted(changes.upserted.keys().copied()), vec![9]);
    assert_eq!(changes.upserted[&9].txids, strings(&["a", "b"]));
    assert!(changes.removed.is_empty());
}

#[test]
fn a_merge_round_keeps_one_and_removes_the_others() {
    let g = group(&["x", "y"]);
    let mut changes = ClusterDeltaSet::new();
    let (state, _) = upsert_start(&g);
    let (state, action) = upsert_round_step(&g, state, UpsertEvent::ExistingFound(vec![3, 5, 7]), &mut changes);
    assert_eq!(action, UpsertAction::Load(vec![3, 5, 7]));
    let loaded = vec![seen(3, Some(30)), seen(5, Some(10)), seen(7, None)];
    let (state, action) = upsert_round_step(&g, state, UpsertEvent::Loaded(loaded), &mut changes);
    // an unknown first sighting counts as earliest
    assert_eq!(action, UpsertAction::Close(vec![3, 5]));
    assert!(changes.upserted.is_empty() && changes.removed.is_empty());
    let (state, action) = upsert_round_step(&g, state, UpsertEvent::Closed, &mut changes);
    assert_eq!(action, replace_of(7, &g));
    assert_eq!(sorted(changes.removed.iter().copied()), vec![3, 5]);
    let (state, action) =
        upsert_round_step(&g, state, UpsertEvent::Replaced(members(7, &["x", "y"])), &mut changes);
    assert!(matches!(state, UpsertState::Done));
    assert_eq!(action, UpsertAction::Finish);
    assert_eq!(sorted(changes.upserted.keys().copied()), vec![7]);
    assert_eq!(sorted(changes.removed), vec![3, 5]);
}

#[test]
fn a_single_stored_cluster_is_replaced_without_closing() {
    let g = group(&["p", "q", "r"]);
    let mut changes = ClusterDeltaSet::new();
    let (state, action) =
        upsert_round_step(&g, UpsertState::Loading, UpsertEvent::Loaded(vec![seen(4, Some(1))]), &mut changes);
    assert!(matches!(state, UpsertState::Replacing { keep: 4 }));
    assert_eq!(action, replace_of(4, &g));
}

#[test]
fn a_failed_replace_keeps_the_closed_clusters_marked() {
    let g = group(&["a", "b"]);
    let mut changes = ClusterDeltaSet::new();
    let state = UpsertState::Closing { keep: 2, closed: vec![8] };
    let (state, _) = upsert_round_step(&g, state, UpsertEvent::Closed, &mut changes);
    let (state, action) = upsert_round_step(&g, state, UpsertEvent::Failed, &mut changes);
    assert!(matches!(state, UpsertState::Done));
    assert_eq!(action, UpsertAction::Finish);
    assert!(changes.upserted.is_empty());
    assert_eq!(sorted(changes.removed), vec![8]);
}

#[test]
fn a_failed_lookup_marks_nothing() {
    let g = group(&["a", "b"]);
    let mut changes = ClusterDeltaSet::new();
    let (state, action) = upsert_round_step(&g, UpsertState::FindingExisting, UpsertEvent::Failed, &mut changes);
    assert!(matches!(state, UpsertState::Done));
    assert_eq!(action, UpsertAction::Finish);
    assert!(changes.upserted.is_empty() && changes.removed.is_empty());
}

#[test]
fn loading_no_cluster_ends_the_round() {
    let g = group(&["a", "b"]);
    let mut changes = ClusterDeltaSet::new();
    let (state, action) = upsert_round_step(&g, UpsertState::Loading, UpsertEvent::Loaded(vec![]), &mut changes);
    assert!(matches!(state, UpsertState::Done));
    assert_eq!(action, UpsertAction::Finish);
}

fn reference(id: i64) -> ClusterRef {
    ClusterRef { id, txids: strings(&["t"]), total_vsize: 1, total_fee: 2 }
}

#[test]
fn clients_hear_only_news_and_removals_they_knew() {
    let event = publishable_delta(vec![None, Some(reference(4)), None], vec![(1, false), (2, true)]);
    let (upserted, removed) = event.expect("an event");
    assert_eq!(upserted.iter().map(|r| r.id).collect::<Vec<_>>(), vec![4]);
    assert_eq!(removed, vec![2]);
}

#[test]
fn a_round_without_news_publishes_nothing() {
    assert!(publishable_delta(vec![None, None], vec![(1, false)]).is_none());
    assert!(publishable_delta(vec![], vec![]).is_none());
}

fn tx(txid: &str, fee: i64, vsize: i64) -> MinedTx {
    MinedTx { txid: txid.to_string(), fee_sats: fee, vsize, input_txids: Vec::new() }
}

#[test]
fn a_fully_mined_cluster_is_confirmed_then_marked_removed() {
    let block = vec![tx("a", 10, 100), tx("b", 20, 200)];
    let mut changes = ClusterDeltaSet::new();
    let (state, action) = confirm_start(&block);
    assert_eq!(action, ConfirmAction::FindClusters(strings(&["a", "b"])));
    let (state, action) = confirm_round_step(&block, state, ConfirmEvent::ClustersFound(vec![4]), &mut changes);
    assert_eq!(action, ConfirmAction::Load(vec![4]));
    let (state, action) =
        confirm_round_step(&block, state, ConfirmEvent::Loaded(vec![members(4, &["a", "b"])]), &mut changes);
    assert_eq!(action, ConfirmAction::Confirm(4));
    assert!(changes.removed.is_empty());
    let (state, action) = confirm_round_step(&block, state, ConfirmEvent::Confirmed, &mut changes);
    assert!(matches!(state, ConfirmState::Done));
    assert_eq!(action, ConfirmAction::Finish);
    assert_eq!(sorted(changes.removed), vec![4]);
}

#[test]
fn a_partly_mined_cluster_keeps_its_mined_members_and_hands_on_the_rest() {
    let block = vec![tx("a", 10, 100), tx("c", 5, 50), tx("b", 20, 200)];
    let mut changes = ClusterDeltaSet::new();
    let (state, action) = confirm_round_step(
        &block,
        ConfirmState::Loading,
        ConfirmEvent::Loaded(vec![members(6, &["a", "x", "b", "y"])]),
        &mut changes,
    );
    assert_eq!(
        action,
        ConfirmAction::Replace { id: 6, members: strings(&["a", "b"]), total_vsize: 300, total_fee: 30 }
    );
    let (state, action) = confirm_round_step(&block, state, ConfirmEvent::Replaced, &mut changes);
    assert_eq!(action, ConfirmAction::Confirm(6));
    let (state, action) = confirm_round_step(&block, state, ConfirmEvent::Confirmed, &mut changes);
    assert_eq!(action, ConfirmAction::SyncCandidates(strings(&["x", "y"])));
    assert_eq!(sorted(changes.removed.iter().copied()), vec![6]);
    let mut found = ClusterDeltaSet::new();
    found.mark_upserted(&members(8, &["x", "y"]));
    let (state, action) = confirm_round_step(&block, state, ConfirmEvent::CandidatesSynced(found), &mut changes);
    assert!(matches!(state, ConfirmState::Done));
    assert_eq!(action, ConfirmAction::Finish);
    assert_eq!(sorted(changes.upserted.keys().copied()), vec![8]);
    assert_eq!(sorted(changes.removed), vec![6]);
}

#[test]
fn a_failed_confirmation_marks_nothing_but_still_hands_on_the_rest() {
    let block = vec![tx("a", 1, 1)];
    let mut changes = ClusterDeltaSet::new();
    let state = ConfirmState::Handling {
        clusters: vec![members(6, &["a", "x"])],
        at: 0,
        stage: ConfirmStage::Confirming { rest: Some(strings(&["x"])) },
    };
    let (_, action) = confirm_round_step(&block, state, ConfirmEvent::Failed, &mut changes);
    assert_eq!(action, ConfirmAction::SyncCandidates(strings(&["x"])));
    assert!(changes.removed.is_empty());
}

#[test]
fn a_failed_replacement_skips_the_cluster() {
    let block = vec![tx("a", 1, 1), tx("b", 1, 1)];
    let mut changes = ClusterDeltaSet::new();
    let state = ConfirmState::Handling {
        clusters: vec![members(6, &["a", "x"]), members(7, &["b"])],
        at: 0,
        stage: ConfirmStage::Replacing { pending: strings(&["x"]) },
    };
    let (_, action) = confirm_round_step(&block, state, ConfirmEvent::Failed, &mut changes);
    assert_eq!(action, ConfirmAction::Confirm(7));
}

#[test]
fn a_block_with_no_stored_cluster_ends_the_confirmation_round() {
    let block = vec![tx("a", 1, 1)];
    let mut changes = ClusterDeltaSet::new();
    let (state, action) =
        confirm_round_step(&block, ConfirmState::FindingClusters, ConfirmEvent::ClustersFound(vec![]), &mut changes);
    assert!(matches!(state, ConfirmState::Done));
    assert_eq!(action, ConfirmAction::Finish);
}

#[test]
fn mined_sums_that_overflow_are_caught() {
    let cluster = members(1, &["a", "b"]);
    assert!(mined_sums_fit_check(&cluster, &vec![tx("a", 10, 1), tx("b", 20, 2)]));
    assert!(!mined_sums_fit_check(&cluster, &vec![tx("a", i64::MAX, 1), tx("b", 1, 2)]));
    assert!(!mined_sums_fit_check(&cluster, &vec![tx("a", 1, i64::MIN), tx("b", 1, -1)]));
}

#[test]
fn an_empty_eviction_list_makes_no_store_call() {
    let (state, action) = evict_start(&vec![]);
    assert!(matches!(state, EvictState::Done));
    assert_eq!(action, EvictAction::Finish);
    let (state, action) = evict_start(&strings(&["e"]));
    assert!(matches!(state, EvictState::FindingClusters));
    assert_eq!(action, EvictAction::FindClusters(strings(&["e"])));
}

#[test]
fn eviction_passes_over_kept_clusters_and_closes_or_shrinks_the_others() {
    let evicted = strings(&["e", "f"]);
    let mut confirmed = members(1, &["e", "g"]);
    confirmed.confirmed_at = Some(5);
    let loaded = vec![
        confirmed,
        members(2, &["g", "h"]),
        members(3, &["e", "k"]),
        members(4, &["e", "m", "n", "f"]),
    ];
    let mut changes = ClusterDeltaSet::new();
    let (state, action) = evict_round_step(&evicted, EvictState::Loading, EvictEvent::Loaded(loaded), &mut changes);
    // the confirmed and the untouched clusters are passed over
    assert_eq!(action, EvictAction::Close(vec![3]));
    let (state, action) = evict_round_step(&evicted, state, EvictEvent::Closed, &mut changes);
    assert_eq!(sorted(changes.removed.iter().copied()), vec![3]);
    assert_eq!(action, EvictAction::ReadTotals(strings(&["m", "n"])));
    assert!(matches!(&state, EvictState::Handling { at: 3, stage: EvictStage::Totaling { .. }, .. }));
    let (state, action) = evict_round_step(
        &evicted,
        state,
        EvictEvent::TotalsRead { total_fee: 70, total_vsize: 700 },
        &mut changes,
    );
    assert_eq!(
        action,
        EvictAction::Replace { id: 4, members: strings(&["m", "n"]), total_vsize: 700, total_fee: 70 }
    );
    let (state, action) =
        evict_round_step(&evicted, state, EvictEvent::Replaced(members(4, &["m", "n"])), &mut changes);
    assert!(matches!(state, EvictState::Done));
    assert_eq!(action, EvictAction::Finish);
    assert_eq!(sorted(changes.upserted.keys().copied()), vec![4]);
    assert_eq!(sorted(changes.removed), vec![3]);
}

#[test]
fn a_failed_totals_read_skips_the_cluster() {
    let evicted = strings(&["e"]);
    let mut changes = ClusterDeltaSet::new();
    let state = EvictState::Handling {
        clusters: vec![members(4, &["e", "m", "n"])],
        at: 0,
        stage: EvictStage::Totaling { remaining: strings(&["m", "n"]) },
    };
    let (state, action) = evict_round_step(&evicted, state, EvictEvent::Failed, &mut changes);
    assert!(matches!(state, EvictState::Done));
    assert_eq!(action, EvictAction::Finish);
    assert!(changes.upserted.is_empty() && changes.removed.is_empty());
}
