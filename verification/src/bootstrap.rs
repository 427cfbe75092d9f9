//! Startup reconciliation of the persisted mempool against the live node: which
//! txids arrived and which left while the service was down, the rows the new ones
//! get, and the details the bootstrap event records.
use crate::details::{DetailValue, Details};
use crate::models::{entry_row, MempoolEntry, NewTransaction};
use crate::order::{sort_strings, sorted};
use crate::text::{
    dedupe, distinct_strings, filter_strings, lemma_dedupe, lemma_without_contains,
    string_views, without,
};
use vstd::prelude::*;

verus! {

broadcast use vstd::seq_lib::group_to_multiset_ensures;

/// Txids reconciled between the persisted mempool state and the live node at
/// startup.
#[derive(Debug)]
pub struct MempoolReconciliation {
    pub txs_added: usize,
    pub txs_removed: usize,
}

/// The txids of the live mempool entries, in the node's order.
pub open spec fn entry_txids(entries: Seq<MempoolEntry>) -> Seq<Seq<char>> {
    entries.map_values(|e: MempoolEntry| e.txid@)
}

/// The index of the last entry with txid `t`: the one a map built from the
/// entries in order keeps.
pub open spec fn last_entry_with(entries: Seq<MempoolEntry>, t: Seq<char>) -> Option<int>
    decreases entries.len(),
{
    if entries.len() == 0 {
        None
    } else if entries.last().txid@ == t {
        Some(entries.len() - 1)
    } else {
        last_entry_with(entries.drop_last(), t)
    }
}

/// Whether `row` is the row of txid `t` from its last live entry, first seen
/// `now`.
pub open spec fn row_from_entries(row: NewTransaction, entries: Seq<MempoolEntry>, t: Seq<char>, now: i128) -> bool {
    match last_entry_with(entries, t) {
        Some(k) => entry_row(row, entries[k], now),
        None => false,
    }
}

/// What reconciliation at startup does.
#[derive(Debug)]
pub struct MempoolPlan {
    /// The live mempool, each txid once: what the ledger is told is
    /// authoritative and what the snapshot starts from.
    pub live: Vec<String>,
    /// Txids live now but not persisted, in txid order.
    pub added: Vec<String>,
    /// Txids persisted but no longer live, in txid order.
    pub removed: Vec<String>,
    /// The rows of the added txids, from their live entries, in `added` order.
    pub new_rows: Vec<NewTransaction>,
}

impl MempoolPlan {
    /// How many txids were added and removed.
    pub fn reconciliation(&self) -> (r: MempoolReconciliation)
        ensures
            r.txs_added == self.added@.len(),
            r.txs_removed == self.removed@.len(),
    {
        MempoolReconciliation { txs_added: self.added.len(), txs_removed: self.removed.len() }
    }
}

proof fn lemma_last_entry_with(entries: Seq<MempoolEntry>, t: Seq<char>)
    ensures
        last_entry_with(entries, t) matches Some(i) ==> 0 <= i < entries.len()
            && entries[i].txid@ == t,
        entry_txids(entries).contains(t) ==> last_entry_with(entries, t) is Some,
    decreases entries.len(),
{
    if entries.len() > 0 {
        let p = entries.drop_last();
        lemma_last_entry_with(p, t);
        if entry_txids(entries).contains(t) && entries.last().txid@ != t {
            let k = choose|k: int| 0 <= k < entry_txids(entries).len() && entry_txids(entries)[k] == t;
            assert(entry_txids(p)[k] == t);
        }
    }
}

/// The index of the last entry with txid `t`.
fn find_entry(entries: &Vec<MempoolEntry>, t: &String) -> (idx: Option<usize>)
    ensures
        last_entry_with(entries@, t@) == match idx {
            Some(p) => Some(p as int),
            None => None,
        },
{
    let mut i = entries.len();
    assert(entries@.take(i as int) =~= entries@);
    while i > 0
        invariant
            i <= entries@.len(),
            last_entry_with(entries@, t@) == last_entry_with(entries@.take(i as int), t@),
        decreases i,
    {
        assert(entries@.take(i as int).drop_last() =~= entries@.take(i - 1));
        if entries[i - 1].txid == *t {
            return Some(i - 1);
        }
        i = i - 1;
    }
    None
}

/// Compares the persisted mempool `prev` against the live `entries`: the txids
/// added and removed since, each list in txid order and each txid once; and for
/// every added txid the row its live entry gives, first seen `now`. When a txid
/// has several entries, the last one counts.
pub fn plan_mempool_reconciliation(prev: &Vec<String>, entries: &Vec<MempoolEntry>, now: i128) -> (plan:
    MempoolPlan)
    ensures
        string_views(plan.live@) == dedupe(entry_txids(entries@)),
        sorted(string_views(plan.added@)),
        string_views(plan.added@).to_multiset() == without(
            dedupe(entry_txids(entries@)),
            dedupe(string_views(prev@)),
        ).to_multiset(),
        sorted(string_views(plan.removed@)),
        string_views(plan.removed@).to_multiset() == without(
            dedupe(string_views(prev@)),
            dedupe(entry_txids(entries@)),
        ).to_multiset(),
        plan.new_rows@.len() == plan.added@.len(),
        forall|i: int|
            0 <= i < plan.added@.len() ==> row_from_entries(
                #[trigger] plan.new_rows@[i],
                entries@,
                plan.added@[i]@,
                now,
            ),
{
    let mut txids: Vec<String> = Vec::new();
    let mut i: usize = 0;
    while i < entries.len()
        invariant
            i <= entries@.len(),
            string_views(txids@) == entry_txids(entries@).take(i as int),
        decreases entries@.len() - i,
    {
        let ghost before = txids@;
        txids.push(entries[i].txid.clone());
        assert(string_views(txids@) =~= string_views(before).push(entries@[i as int].txid@));
        assert(entry_txids(entries@).take(i + 1) =~= entry_txids(entries@).take(i as int).push(
            entries@[i as int].txid@,
        ));
        i = i + 1;
    }
    assert(entry_txids(entries@).take(entries@.len() as int) =~= entry_txids(entries@));
    let live = distinct_strings(&txids);
    let persisted = distinct_strings(prev);
    let added = sort_strings(filter_strings(&live, &persisted, false));
    let removed = sort_strings(filter_strings(&persisted, &live, false));
    let ghost live_v = string_views(live@);
    let ghost added_v = string_views(added@);
    proof {
        lemma_dedupe(entry_txids(entries@));
    }
    let mut new_rows: Vec<NewTransaction> = Vec::new();
    let mut j: usize = 0;
    while j < added.len()
        invariant
            j <= added@.len(),
            added_v == string_views(added@),
            live_v == dedupe(entry_txids(entries@)),
            added_v.to_multiset() == without(live_v, string_views(persisted@)).to_multiset(),
            forall|x: Seq<char>| live_v.contains(x) <==> entry_txids(entries@).contains(x),
            new_rows@.len() == j,
            forall|a: int|
                0 <= a < j ==> row_from_entries(#[trigger] new_rows@[a], entries@, added@[a]@, now),
        decreases added@.len() - j,
    {
        let t = &added[j];
        proof {
            assert(added_v[j as int] == t@);
            assert(added_v.contains(t@));
            assert(added_v.to_multiset().count(t@) > 0);
            let w = without(live_v, string_views(persisted@));
            assert(w.to_multiset().count(t@) > 0);
            assert(w.contains(t@));
            live_v.lemma_filter_contains_rev(
                |s: Seq<char>| !string_views(persisted@).contains(s),
                t@,
            );
            assert(live_v.contains(t@));
            assert(entry_txids(entries@).contains(t@));
            lemma_last_entry_with(entries@, t@);
        }
        match find_entry(entries, t) {
            Some(k) => {
                new_rows.push(NewTransaction::from_mempool_entry_at(&entries[k], now));
            },
            None => {
                assert(false);
            },
        }
        j = j + 1;
    }
    MempoolPlan { live, added, removed, new_rows }
}

/// `bootstrap_completed` event details: how long bootstrap took, and what
/// reconciliation found -- or, when it could not run, that it did not, rather
/// than counts of zero.
pub fn bootstrap_completed_details(duration_ms: u128, reconciliation: Option<MempoolReconciliation>) -> (d:
    Details)
    ensures
        d.fields@[0].0@ == "duration_ms"@,
        d.fields@[0].1 == DetailValue::Number(duration_ms),
        match reconciliation {
            Some(r) => {
                &&& d.fields@.len() == 3
                &&& d.fields@[1].0@ == "txs_added"@
                &&& d.fields@[1].1 == DetailValue::Number(r.txs_added as u128)
                &&& d.fields@[2].0@ == "txs_removed"@
                &&& d.fields@[2].1 == DetailValue::Number(r.txs_removed as u128)
            },
            None => {
                &&& d.fields@.len() == 2
                &&& d.fields@[1].0@ == "reconciled"@
                &&& d.fields@[1].1 == DetailValue::Flag(false)
            },
        },
{
    let d = Details::new().with("duration_ms", DetailValue::Number(duration_ms));
    match reconciliation {
        Some(r) => d.with("txs_added", DetailValue::Number(r.txs_added as u128)).with(
            "txs_removed",
            DetailValue::Number(r.txs_removed as u128),
        ),
        None => d.with("reconciled", DetailValue::Flag(false)),
    }
}

/// Reconciliation is exact: no txid is both added and removed, and a txid is
/// live exactly when it was added, or was persisted and not removed.
pub proof fn reconciliation_is_exact(live: Seq<Seq<char>>, persisted: Seq<Seq<char>>, x: Seq<char>)
    ensures
        !(without(live, persisted).contains(x) && without(persisted, live).contains(x)),
        live.contains(x) <==> without(live, persisted).contains(x) || (persisted.contains(x)
            && !without(persisted, live).contains(x)),
{
    lemma_without_contains(live, persisted, x);
    lemma_without_contains(persisted, live, x);
}

} // verus!
