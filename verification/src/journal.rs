//! The mempool journal and its log: which rows a flushed batch writes, which
//! txids it reports as evicted or as new, and the mempool that the log, replayed
//! in order, describes.
use crate::models::{direction_of, DeltaDirection, DeltaReason, NewTransaction};
use crate::seq_sets::{lemma_push_to_set, lemma_remove_to_set};
use crate::text::{contains_string, dedupe, filter_strings, string_views, without};
use vstd::prelude::*;

verus! {

/// One change of the mempool as the journal records it.
#[derive(Debug)]
pub struct JournalEntry {
    pub txid: String,
    pub direction: DeltaDirection,
}

/// One row of the mempool delta log.
#[derive(Debug)]
pub struct NewMempoolDelta {
    pub txid: String,
    pub reason: DeltaReason,
}

/// The txids of the entries with direction `d`, in journal order.
pub open spec fn txids_with(entries: Seq<JournalEntry>, d: DeltaDirection) -> Seq<Seq<char>>
    decreases entries.len(),
{
    if entries.len() == 0 {
        Seq::empty()
    } else {
        let prev = txids_with(entries.drop_last(), d);
        if entries.last().direction == d {
            prev.push(entries.last().txid@)
        } else {
            prev
        }
    }
}

/// The log reason of a journal entry: a removal is a confirmation when the txid
/// is known to be confirmed, an eviction otherwise.
pub open spec fn reason_for(d: DeltaDirection, confirmed: bool) -> DeltaReason {
    match d {
        DeltaDirection::Add => DeltaReason::AddMempool,
        DeltaDirection::Remove => if confirmed {
            DeltaReason::RemoveConfirmed
        } else {
            DeltaReason::RemoveEvicted
        },
    }
}

/// The txids the entries remove without a known confirmation, in journal order.
pub open spec fn evicted_txids(entries: Seq<JournalEntry>, confirmed: Seq<Seq<char>>) -> Seq<
    Seq<char>,
>
    decreases entries.len(),
{
    if entries.len() == 0 {
        Seq::empty()
    } else {
        let prev = evicted_txids(entries.drop_last(), confirmed);
        let e = entries.last();
        if e.direction == DeltaDirection::Remove && !confirmed.contains(e.txid@) {
            prev.push(e.txid@)
        } else {
            prev
        }
    }
}

/// The mempool that replaying the log `rows` in order describes: an add puts
/// its txid in, a removal takes it out.
pub open spec fn replay(rows: Seq<(Seq<char>, DeltaReason)>) -> Set<Seq<char>>
    decreases rows.len(),
{
    if rows.len() == 0 {
        Set::empty()
    } else {
        let prev = replay(rows.drop_last());
        let (t, r) = rows.last();
        match direction_of(r) {
            DeltaDirection::Add => prev.insert(t),
            DeltaDirection::Remove => prev.remove(t),
        }
    }
}

/// Whether two directions are the same.
fn same_direction(a: DeltaDirection, b: DeltaDirection) -> (same: bool)
    ensures
        same == (a == b),
{
    match (a, b) {
        (DeltaDirection::Add, DeltaDirection::Add) => true,
        (DeltaDirection::Remove, DeltaDirection::Remove) => true,
        _ => false,
    }
}

/// The distinct txids of the entries with direction `d`, each where it first
/// occurs.
pub fn distinct_txids(entries: &Vec<JournalEntry>, d: DeltaDirection) -> (txids: Vec<String>)
    ensures
        string_views(txids@) == dedupe(txids_with(entries@, d)),
{
    let mut txids: Vec<String> = Vec::new();
    let mut i: usize = 0;
    while i < entries.len()
        invariant
            i <= entries@.len(),
            string_views(txids@) == dedupe(txids_with(entries@.take(i as int), d)),
        decreases entries@.len() - i,
    {
        let e = &entries[i];
        assert(entries@.take(i + 1).drop_last() =~= entries@.take(i as int));
        assert(entries@.take(i + 1).last() == entries@[i as int]);
        if same_direction(e.direction, d) {
            let ghost prev = txids_with(entries@.take(i as int), d);
            assert(txids_with(entries@.take(i + 1), d) == prev.push(e.txid@));
            assert(prev.push(e.txid@).drop_last() =~= prev);
            if !contains_string(&txids, &e.txid) {
                let ghost before = txids@;
                txids.push(e.txid.clone());
                assert(string_views(txids@) =~= string_views(before).push(e.txid@));
            }
        }
        i = i + 1;
    }
    assert(entries@.take(entries@.len() as int) =~= entries@);
    txids
}

/// One log row per journal entry, in journal order, each removal classified by
/// whether its txid is among `confirmed`; and the distinct txids written as
/// evictions, each where it first occurs.
pub fn delta_rows(entries: &Vec<JournalEntry>, confirmed: &Vec<String>) -> (res: (
    Vec<NewMempoolDelta>,
    Vec<String>,
))
    ensures
        res.0@.len() == entries@.len(),
        forall|i: int|
            0 <= i < entries@.len() ==> (#[trigger] res.0@[i]).txid@ == entries@[i].txid@
                && res.0@[i].reason == reason_for(
                entries@[i].direction,
                string_views(confirmed@).contains(entries@[i].txid@),
            ),
        string_views(res.1@) == dedupe(evicted_txids(entries@, string_views(confirmed@))),
{
    let ghost conf = string_views(confirmed@);
    let mut rows: Vec<NewMempoolDelta> = Vec::new();
    let mut evicted: Vec<String> = Vec::new();
    let mut i: usize = 0;
    while i < entries.len()
        invariant
            i <= entries@.len(),
            conf == string_views(confirmed@),
            rows@.len() == i,
            forall|j: int|
                0 <= j < i ==> (#[trigger] rows@[j]).txid@ == entries@[j].txid@ && rows@[j].reason
                    == reason_for(entries@[j].direction, conf.contains(entries@[j].txid@)),
            string_views(evicted@) == dedupe(evicted_txids(entries@.take(i as int), conf)),
        decreases entries@.len() - i,
    {
        let e = &entries[i];
        assert(entries@.take(i + 1).drop_last() =~= entries@.take(i as int));
        assert(entries@.take(i + 1).last() == entries@[i as int]);
        let ghost prev = evicted_txids(entries@.take(i as int), conf);
        assert(prev.push(e.txid@).drop_last() =~= prev);
        let reason = match e.direction {
            DeltaDirection::Add => DeltaReason::AddMempool,
            DeltaDirection::Remove => {
                if contains_string(confirmed, &e.txid) {
                    DeltaReason::RemoveConfirmed
                } else {
                    if !contains_string(&evicted, &e.txid) {
                        let ghost before = evicted@;
                        evicted.push(e.txid.clone());
                        assert(string_views(evicted@) =~= string_views(before).push(e.txid@));
                    }
                    DeltaReason::RemoveEvicted
                }
            },
        };
        rows.push(NewMempoolDelta { txid: e.txid.clone(), reason });
        i = i + 1;
    }
    assert(entries@.take(entries@.len() as int) =~= entries@);
    (rows, evicted)
}

/// Which added txids are new, in order: those no stored row has (`existing`),
/// each with the hollow placeholder row it gets, first seen `now`.
pub fn hollow_rows(add_txids: &Vec<String>, existing: &Vec<String>, now: i128) -> (res: (
    Vec<String>,
    Vec<NewTransaction>,
))
    ensures
        string_views(res.0@) == without(string_views(add_txids@), string_views(existing@)),
        res.1@.len() == res.0@.len(),
        forall|i: int|
            0 <= i < res.0@.len() ==> {
                let row = #[trigger] res.1@[i];
                &&& row.txid@ == res.0@[i]@
                &&& row.fee is None
                &&& row.vsize == 0
                &&& row.first_seen_at == now
                &&& row.confirmed_at is None
                &&& row.cluster_id is None
                &&& row.confirmed_at_block is None
                &&& row.hollow
                &&& row.input_txids is None
            },
{
    let new_txids = filter_strings(add_txids, existing, false);
    let mut rows: Vec<NewTransaction> = Vec::new();
    let mut i: usize = 0;
    while i < new_txids.len()
        invariant
            i <= new_txids@.len(),
            rows@.len() == i,
            forall|j: int|
                0 <= j < i ==> {
                    let row = #[trigger] rows@[j];
                    &&& row.txid@ == new_txids@[j]@
                    &&& row.fee is None
                    &&& row.vsize == 0
                    &&& row.first_seen_at == now
                    &&& row.confirmed_at is None
                    &&& row.cluster_id is None
                    &&& row.confirmed_at_block is None
                    &&& row.hollow
                    &&& row.input_txids is None
                },
        decreases new_txids@.len() - i,
    {
        rows.push(NewTransaction::hollow_at(new_txids[i].as_str(), now));
        i = i + 1;
    }
    (new_txids, rows)
}

/// What a flushed batch tells the rest of the service: the txids that got a
/// hollow row and want backfilling, and the txids written as evictions.
#[derive(Debug)]
pub struct FlushOutcome {
    pub new_txids: Vec<String>,
    pub evicted: Vec<String>,
}

/// What writing one journal batch does.
#[derive(Debug)]
pub struct FlushPlan {
    /// One log row per entry, in journal order.
    pub delta_rows: Vec<NewMempoolDelta>,
    /// The hollow rows of the added txids not yet stored.
    pub hollow_rows: Vec<NewTransaction>,
    pub outcome: FlushOutcome,
}

/// Plans the write of one journal batch: the log rows, removals classified by
/// `confirmed` (the removed txids whose row is confirmed), and a hollow row,
/// first seen `now`, for each distinct added txid not among `existing` (the
/// added txids already stored).
pub fn plan_flush(entries: &Vec<JournalEntry>, confirmed: &Vec<String>, existing: &Vec<String>, now: i128) -> (plan: FlushPlan)
    ensures
        plan.delta_rows@.len() == entries@.len(),
        forall|i: int|
            0 <= i < entries@.len() ==> (#[trigger] plan.delta_rows@[i]).txid@ == entries@[i].txid@
                && plan.delta_rows@[i].reason == reason_for(
                entries@[i].direction,
                string_views(confirmed@).contains(entries@[i].txid@),
            ),
        string_views(plan.outcome.evicted@) == dedupe(
            evicted_txids(entries@, string_views(confirmed@)),
        ),
        string_views(plan.outcome.new_txids@) == without(
            dedupe(txids_with(entries@, DeltaDirection::Add)),
            string_views(existing@),
        ),
        plan.hollow_rows@.len() == plan.outcome.new_txids@.len(),
        forall|i: int|
            0 <= i < plan.outcome.new_txids@.len() ==> {
                let row = #[trigger] plan.hollow_rows@[i];
                &&& row.txid@ == plan.outcome.new_txids@[i]@
                &&& row.fee is None
                &&& row.vsize == 0
                &&& row.first_seen_at == now
                &&& row.confirmed_at is None
                &&& row.cluster_id is None
                &&& row.confirmed_at_block is None
                &&& row.hollow
                &&& row.input_txids is None
            },
{
    let (delta_rows, evicted) = delta_rows(entries, confirmed);
    let add_txids = distinct_txids(entries, DeltaDirection::Add);
    let (new_txids, hollow_rows) = hollow_rows(&add_txids, existing, now);
    FlushPlan { delta_rows, hollow_rows, outcome: FlushOutcome { new_txids, evicted } }
}

/// The log rows admitting `added` into the mempool: one add per txid, in order.
pub fn admission_rows(added: &Vec<String>) -> (rows: Vec<NewMempoolDelta>)
    ensures
        rows@.len() == added@.len(),
        forall|i: int|
            0 <= i < added@.len() ==> (#[trigger] rows@[i]).txid@ == added@[i]@ && rows@[i].reason
                == DeltaReason::AddMempool,
{
    let mut rows: Vec<NewMempoolDelta> = Vec::new();
    let mut i: usize = 0;
    while i < added.len()
        invariant
            i <= added@.len(),
            rows@.len() == i,
            forall|j: int|
                0 <= j < i ==> (#[trigger] rows@[j]).txid@ == added@[j]@ && rows@[j].reason
                    == DeltaReason::AddMempool,
        decreases added@.len() - i,
    {
        rows.push(NewMempoolDelta { txid: added[i].clone(), reason: DeltaReason::AddMempool });
        i = i + 1;
    }
    rows
}

/// The log's rows by their plain values.
pub open spec fn log_view(rows: Seq<(String, DeltaReason)>) -> Seq<(Seq<char>, DeltaReason)> {
    rows.map_values(|r: (String, DeltaReason)| (r.0@, r.1))
}

/// Where `t` stands among `v`, if it does.
fn position_of(v: &Vec<String>, t: &String) -> (pos: Option<usize>)
    ensures
        pos matches Some(i) ==> i < v@.len() && v@[i as int]@ == t@,
        pos is None ==> !string_views(v@).contains(t@),
{
    let mut i: usize = 0;
    while i < v.len()
        invariant
            i <= v@.len(),
            forall|j: int| 0 <= j < i ==> v@[j]@ != t@,
        decreases v@.len() - i,
    {
        if v[i] == *t {
            return Some(i);
        }
        i = i + 1;
    }
    proof {
        if string_views(v@).contains(t@) {
            let j = choose|j: int| 0 <= j < string_views(v@).len() && string_views(v@)[j] == t@;
            assert(v@[j]@ == t@);
        }
    }
    None
}

/// The mempool the log `rows` describes when replayed in order, each txid once.
pub fn reconstruct_snapshot(rows: &Vec<(String, DeltaReason)>) -> (mempool: Vec<String>)
    ensures
        string_views(mempool@).no_duplicates(),
        string_views(mempool@).to_set() == replay(log_view(rows@)),
{
    let mut mempool: Vec<String> = Vec::new();
    let mut k: usize = 0;
    assert(string_views(mempool@).to_set() =~= Set::<Seq<char>>::empty());
    while k < rows.len()
        invariant
            k <= rows@.len(),
            string_views(mempool@).no_duplicates(),
            string_views(mempool@).to_set() == replay(log_view(rows@.take(k as int))),
        decreases rows@.len() - k,
    {
        let (txid, reason) = &rows[k];
        assert(log_view(rows@.take(k + 1)).drop_last() =~= log_view(rows@.take(k as int)));
        assert(log_view(rows@.take(k + 1)).last() == (txid@, *reason));
        let ghost before = string_views(mempool@);
        match reason.direction() {
            DeltaDirection::Add => {
                if !contains_string(&mempool, txid) {
                    proof {
                        lemma_push_to_set(before, txid@);
                    }
                    mempool.push(txid.clone());
                    assert(string_views(mempool@) =~= before.push(txid@));
                } else {
                    assert(before.to_set().insert(txid@) =~= before.to_set());
                }
            },
            DeltaDirection::Remove => {
                match position_of(&mempool, txid) {
                    Some(i) => {
                        proof {
                            lemma_remove_to_set(before, i as int);
                        }
                        mempool.remove(i);
                        assert(string_views(mempool@) =~= before.remove(i as int));
                    },
                    None => {
                        assert(before.to_set().remove(txid@) =~= before.to_set());
                    },
                }
            },
        }
        k = k + 1;
    }
    assert(rows@.take(rows@.len() as int) =~= rows@);
    mempool
}

/// The direction of the last log row for `t`, if any row is for `t`.
pub open spec fn last_direction(rows: Seq<(Seq<char>, DeltaReason)>, t: Seq<char>) -> Option<
    DeltaDirection,
>
    decreases rows.len(),
{
    if rows.len() == 0 {
        None
    } else if rows.last().0 == t {
        Some(direction_of(rows.last().1))
    } else {
        last_direction(rows.drop_last(), t)
    }
}

/// Replaying the log, the last row for a txid decides: it is in the mempool
/// exactly when that row is an add.
pub proof fn replay_follows_the_last_row(rows: Seq<(Seq<char>, DeltaReason)>, t: Seq<char>)
    ensures
        replay(rows).contains(t) <==> last_direction(rows, t) == Some(DeltaDirection::Add),
    decreases rows.len(),
{
    if rows.len() > 0 {
        replay_follows_the_last_row(rows.drop_last(), t);
    }
}


/// What a reconciler tick does once the write of its batch has answered, in
/// this order: commit the batch, so the journal moves past it; enqueue each new
/// txid for backfilling; publish the batch's change of residency once; sync the
/// clusters of the added and the evicted txids.
#[derive(Debug)]
pub struct TickPlan {
    pub commit: bool,
    pub enqueue: Vec<String>,
    /// The (added, removed) txids to publish.
    pub publish: Option<(Vec<String>, Vec<String>)>,
    /// The (candidate, evicted) txids to sync clusters for.
    pub sync: Option<(Vec<String>, Vec<String>)>,
}

/// Plans the rest of a tick from its write's outcome (`None` when the write
/// failed), the txids the batch added and the batch's change of residency. A
/// failed write commits nothing, enqueues nothing and publishes nothing, so the
/// same batch comes back on the next tick.
pub fn tick_plan(
    written: Option<FlushOutcome>,
    added: Vec<String>,
    residency: (Vec<String>, Vec<String>),
) -> (plan: TickPlan)
    ensures
        written is None ==> !plan.commit && plan.enqueue@.len() == 0 && plan.publish is None
            && plan.sync is None,
        written matches Some(o) ==> plan.commit && plan.enqueue@ == o.new_txids@ && plan.publish
            == Some(residency) && (plan.sync matches Some((c, e)) && c@ == added@ && e@
            == o.evicted@),
{
    match written {
        None => TickPlan { commit: false, enqueue: Vec::new(), publish: None, sync: None },
        Some(outcome) => TickPlan {
            commit: true,
            enqueue: outcome.new_txids,
            publish: Some(residency),
            sync: Some((added, outcome.evicted)),
        },
    }
}

} // verus!
