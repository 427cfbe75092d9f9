//! Cluster bookkeeping: the clusters touched during one mutation round, and the
//! decisions the cluster service makes between its database and node calls.
use std::collections::{HashMap, HashSet};
use crate::text::{contains_string, copy_strings, filter_strings, string_views, within, without};
use vstd::prelude::*;
use vstd::std_specs::iter::IteratorSpec;

verus! {

broadcast use vstd::std_specs::hash::group_hash_axioms;

/// A persisted cluster. Timestamps are unix nanoseconds.
#[derive(Debug)]
pub struct Cluster {
    pub id: i64,
    pub txids: Vec<String>,
    pub total_vsize: i64,
    pub total_fee: i64,
    pub first_seen_at: Option<i128>,
    pub confirmed_at: Option<i128>,
}

/// A cluster as clients see it.
#[derive(Debug)]
pub struct ClusterRef {
    pub id: i64,
    pub txids: Vec<String>,
    pub total_vsize: i64,
    pub total_fee: i64,
}

/// Whether `r` describes the cluster `c`.
pub open spec fn describes(r: ClusterRef, c: Cluster) -> bool {
    &&& r.id == c.id
    &&& string_views(r.txids@) == string_views(c.txids@)
    &&& r.total_vsize == c.total_vsize
    &&& r.total_fee == c.total_fee
}

impl Cluster {
    /// The client-facing description of this cluster.
    pub fn to_ref(&self) -> (r: ClusterRef)
        ensures
            describes(r, *self),
    {
        ClusterRef {
            id: self.id,
            txids: copy_strings(&self.txids),
            total_vsize: self.total_vsize,
            total_fee: self.total_fee,
        }
    }
}

/// The ids filed in `m`, each once.
fn map_ids(m: &HashMap<i64, ClusterRef>) -> (ids: Vec<i64>)
    ensures
        ids@.to_set() == m@.dom(),
        ids@.no_duplicates(),
{
    let mut ids: Vec<i64> = Vec::new();
    let ghost all = vstd::std_specs::hash::spec_keys_iter(m).remaining();
    for id in it: m.keys()
        invariant
            it.seq() == all,
            ids@ == it.seq().take(it.index() as int).unref(),
    {
        ids.push(*id);
        assert(ids@ =~= it.seq().take(it.index() + 1).unref());
    }
    assert(ids@ =~= all.unref());
    ids
}

/// The ids in `s`, each once.
fn set_ids(s: &HashSet<i64>) -> (ids: Vec<i64>)
    ensures
        ids@.to_set() == s@,
        ids@.no_duplicates(),
{
    let mut ids: Vec<i64> = Vec::new();
    let ghost all = vstd::std_specs::hash::spec_hash_keys_iter(s).remaining();
    for id in it: s.iter()
        invariant
            it.seq() == all,
            ids@ == it.seq().take(it.index() as int).unref(),
    {
        ids.push(*id);
        assert(ids@ =~= it.seq().take(it.index() + 1).unref());
    }
    assert(ids@ =~= all.unref());
    ids
}

/// Clusters touched during one mutation round, handed to the cluster change
/// service to diff against the snapshot and emit a single delta event.
#[derive(Debug)]
pub struct ClusterDeltaSet {
    pub upserted: HashMap<i64, ClusterRef>,
    pub removed: HashSet<i64>,
}

/// A delta set as plain values: the upserted clusters by id, and the removed
/// ids.
pub type DeltaModel = (Map<i64, ClusterRef>, Set<i64>);

/// No cluster is both upserted and removed, and every upserted cluster is filed
/// under its own id.
pub open spec fn model_wf(m: DeltaModel) -> bool {
    &&& m.0.dom().disjoint(m.1)
    &&& forall|id: i64| #[trigger] m.0.contains_key(id) ==> m.0[id].id == id
}

/// `after` is `before` with `cluster` marked upserted: filed under its id,
/// replacing what was filed there, and no longer removed.
pub open spec fn upsert_step(before: DeltaModel, cluster: Cluster, after: DeltaModel) -> bool {
    &&& after.0.contains_key(cluster.id)
    &&& describes(after.0[cluster.id], cluster)
    &&& after.0.remove(cluster.id) == before.0.remove(cluster.id)
    &&& after.1 == before.1.remove(cluster.id)
}

/// `after` is `before` with cluster `id` marked removed: no longer upserted.
pub open spec fn remove_step(before: DeltaModel, id: i64, after: DeltaModel) -> bool {
    &&& after.0 == before.0.remove(id)
    &&& after.1 == before.1.insert(id)
}

/// `after` is `a` with the later round `b` folded in: `b`'s upserts and removals
/// win over `a`'s for the same id.
pub open spec fn merge_step(a: DeltaModel, b: DeltaModel, after: DeltaModel) -> bool {
    &&& after.0 == a.0.union_prefer_right(b.0).remove_keys(b.1)
    &&& after.1 == a.1.difference(b.0.dom()).union(b.1)
}

impl ClusterDeltaSet {
    /// The set as plain values.
    pub open spec fn model(&self) -> DeltaModel {
        (self.upserted@, self.removed@)
    }

    /// No cluster is both upserted and removed, and every upserted cluster is
    /// filed under its own id.
    pub open spec fn wf(&self) -> bool {
        model_wf(self.model())
    }

    /// A set with nothing touched.
    pub fn new() -> (set: Self)
        ensures
            set.wf(),
            set.upserted@ == Map::<i64, ClusterRef>::empty(),
            set.removed@ == Set::<i64>::empty(),
    {
        ClusterDeltaSet { upserted: HashMap::new(), removed: HashSet::new() }
    }

    /// Records `cluster`'s post-mutation state; a later upsert of the same id
    /// replaces it, and it is no longer removed.
    pub fn mark_upserted(&mut self, cluster: &Cluster)
        requires
            old(self).wf(),
        ensures
            final(self).wf(),
            upsert_step(old(self).model(), *cluster, final(self).model()),
    {
        self.removed.remove(&cluster.id);
        self.upserted.insert(cluster.id, cluster.to_ref());
        assert(self.upserted@.remove(cluster.id) =~= old(self).upserted@.remove(cluster.id));
    }

    /// Records that cluster `id` is gone; it is no longer upserted.
    pub fn mark_removed(&mut self, id: i64)
        requires
            old(self).wf(),
        ensures
            final(self).wf(),
            remove_step(old(self).model(), id, final(self).model()),
    {
        self.mark_removed_unchecked(id);
    }

    /// Folds `other` in, `other` being the later round: its upserts and removals
    /// win over this set's for the same id.
    pub fn merge(&mut self, other: ClusterDeltaSet)
        requires
            old(self).wf(),
            other.wf(),
        ensures
            final(self).wf(),
            merge_step(old(self).model(), other.model(), final(self).model()),
    {
        let ghost orig = other.upserted@;
        let ghost start_up = self.upserted@;
        let ghost start_rm = self.removed@;
        let mut rest = other;
        let ids = map_ids(&rest.upserted);
        let mut k: usize = 0;
        while k < ids.len()
            invariant
                k <= ids@.len(),
                ids@.to_set() == orig.dom(),
                ids@.no_duplicates(),
                forall|id: i64| #[trigger] orig.contains_key(id) ==> orig[id].id == id,
                start_up.dom().disjoint(start_rm),
                forall|id: i64| #[trigger] start_up.contains_key(id) ==> start_up[id].id == id,
                rest.upserted@ == orig.remove_keys(ids@.take(k as int).to_set()),
                rest.removed@ == other.removed@,
                self.upserted@ == start_up.union_prefer_right(
                    orig.restrict(ids@.take(k as int).to_set()),
                ),
                self.removed@ == start_rm.difference(ids@.take(k as int).to_set()),
            decreases ids@.len() - k,
        {
            let id = ids[k];
            let ghost done = ids@.take(k as int).to_set();
            assert(ids@.take(k + 1).to_set() =~= done.insert(id)) by {
                assert(ids@.take(k + 1) =~= ids@.take(k as int).push(id));
                ids@.take(k as int).lemma_push_to_set_commute(id);
            }
            assert(!done.contains(id)) by {
                if done.contains(id) {
                    let j = choose|j: int| 0 <= j < k && ids@.take(k as int)[j] == id;
                    assert(ids@[j] == ids@[k as int]);
                }
            }
            assert(orig.contains_key(id)) by {
                assert(ids@.contains(id));
            }
            let row = rest.upserted.remove(&id);
            match row {
                Some(row) => {
                    self.removed.remove(&id);
                    self.upserted.insert(id, row);
                },
                None => {
                    assert(false);
                },
            }
            assert(rest.upserted@ =~= orig.remove_keys(done.insert(id)));
            assert(self.upserted@ =~= start_up.union_prefer_right(orig.restrict(done.insert(id))));
            assert(self.removed@ =~= start_rm.difference(done.insert(id)));
            k = k + 1;
        }
        assert(ids@.take(ids@.len() as int) =~= ids@);
        let ghost mid_up = self.upserted@;
        let ghost mid_rm = self.removed@;
        assert(mid_up =~= start_up.union_prefer_right(orig));
        assert(mid_rm =~= start_rm.difference(orig.dom()));
        let gone = set_ids(&rest.removed);
        let ghost removed_ids = rest.removed@;
        let mut k: usize = 0;
        while k < gone.len()
            invariant
                k <= gone@.len(),
                gone@.to_set() == removed_ids,
                self.upserted@ == mid_up.remove_keys(gone@.take(k as int).to_set()),
                self.removed@ == mid_rm.union(gone@.take(k as int).to_set()),
            decreases gone@.len() - k,
        {
            let id = gone[k];
            assert(gone@.take(k + 1).to_set() =~= gone@.take(k as int).to_set().insert(id)) by {
                assert(gone@.take(k + 1) =~= gone@.take(k as int).push(id));
                gone@.take(k as int).lemma_push_to_set_commute(id);
            }
            self.mark_removed_unchecked(id);
            assert(self.upserted@ =~= mid_up.remove_keys(gone@.take(k + 1).to_set()));
            assert(self.removed@ =~= mid_rm.union(gone@.take(k + 1).to_set()));
            k = k + 1;
        }
        assert(gone@.take(gone@.len() as int) =~= gone@);
        assert(self.upserted@ =~= start_up.union_prefer_right(orig).remove_keys(removed_ids));
        assert(self.removed@ =~= start_rm.difference(orig.dom()).union(removed_ids));
    }

    /// `mark_removed` without the well-formedness bookkeeping, for use while a
    /// merge is half done.
    fn mark_removed_unchecked(&mut self, id: i64)
        ensures
            final(self).upserted@ == old(self).upserted@.remove(id),
            final(self).removed@ == old(self).removed@.insert(id),
    {
        self.upserted.remove(&id);
        self.removed.insert(id);
    }

    /// Whether nothing was touched.
    pub fn is_empty(&self) -> (empty: bool)
        ensures
            empty == (self.upserted@.dom().is_empty() && self.removed@.is_empty()),
    {
        let e = self.upserted.is_empty() && self.removed.is_empty();
        proof {
            if self.upserted@.dom().is_empty() {
                assert(self.upserted@.dom() =~= Set::<i64>::empty());
            }
        }
        e
    }
}

/// Marking a cluster removed after marking it upserted leaves it removed only.
pub proof fn removal_after_upsert_wins(s0: DeltaModel, c: Cluster, s1: DeltaModel, s2: DeltaModel)
    requires
        upsert_step(s0, c, s1),
        remove_step(s1, c.id, s2),
    ensures
        !s2.0.contains_key(c.id),
        s2.1.contains(c.id),
{
}

/// Marking a cluster upserted after marking it removed leaves it upserted only,
/// as last described.
pub proof fn upsert_after_removal_wins(s0: DeltaModel, c: Cluster, s1: DeltaModel, s2: DeltaModel)
    requires
        remove_step(s0, c.id, s1),
        upsert_step(s1, c, s2),
    ensures
        s2.0.contains_key(c.id),
        describes(s2.0[c.id], c),
        !s2.1.contains(c.id),
{
}

/// In a merge the later round wins: what it upserted stays as it filed it and is
/// not removed, and what it removed is removed and not upserted.
pub proof fn merge_lets_the_later_round_win(a: DeltaModel, b: DeltaModel, m: DeltaModel, id: i64)
    requires
        model_wf(b),
        merge_step(a, b, m),
    ensures
        b.0.contains_key(id) ==> m.0.contains_key(id) && m.0[id] == b.0[id] && !m.1.contains(id),
        b.1.contains(id) ==> m.1.contains(id) && !m.0.contains_key(id),
        !b.0.contains_key(id) && !b.1.contains(id) ==> (m.0.contains_key(id) == a.0.contains_key(
            id,
        ) && (a.0.contains_key(id) ==> m.0[id] == a.0[id]) && m.1.contains(id) == a.1.contains(
            id,
        )),
{
}

/// Merging rounds that touched different clusters unions what they touched.
pub proof fn merge_of_disjoint_rounds_is_their_union(a: DeltaModel, b: DeltaModel, m: DeltaModel)
    requires
        model_wf(a),
        model_wf(b),
        (a.0.dom() + a.1).disjoint(b.0.dom() + b.1),
        merge_step(a, b, m),
    ensures
        m.0 == a.0.union_prefer_right(b.0),
        m.1 == a.1.union(b.1),
{
    assert(m.0 =~= a.0.union_prefer_right(b.0)) by {
        assert forall|id: i64| b.1.contains(id) implies !a.0.contains_key(id) && !b.0.contains_key(
            id,
        ) by {
            assert((b.0.dom() + b.1).contains(id));
        }
    }
    assert(m.1 =~= a.1.union(b.1)) by {
        assert forall|id: i64| a.1.contains(id) implies !b.0.contains_key(id) by {
            assert((a.0.dom() + a.1).contains(id));
        }
    }
}

/// Merging a round that touched nothing changes nothing.
pub proof fn merge_with_an_empty_round_is_identity(a: DeltaModel, m: DeltaModel)
    requires
        merge_step(a, (Map::empty(), Set::empty()), m),
    ensures
        m == a,
{
    assert(m.0 =~= a.0);
    assert(m.1 =~= a.1);
}

} // verus!

verus! {

/// One row of the cluster delta log.
#[derive(Debug)]
pub struct NewClusterDelta {
    pub cluster_id: i64,
    pub added_txids: Vec<String>,
    pub removed_txids: Vec<String>,
    pub fee_delta: i64,
    pub vsize_delta: i64,
}

/// The log rows that record a batch of brand-new clusters, one per cluster in
/// order.
pub fn insertion_deltas(clusters: &Vec<Cluster>) -> (ds: Vec<NewClusterDelta>)
    ensures
        ds@.len() == clusters@.len(),
        forall|i: int|
            0 <= i < clusters@.len() ==> {
                let d = #[trigger] ds@[i];
                let c = clusters@[i];
                &&& d.cluster_id == c.id
                &&& string_views(d.added_txids@) == string_views(c.txids@)
                &&& d.removed_txids@.len() == 0
                &&& d.fee_delta == c.total_fee
                &&& d.vsize_delta == c.total_vsize
            },
{
    let mut ds: Vec<NewClusterDelta> = Vec::new();
    let mut i: usize = 0;
    while i < clusters.len()
        invariant
            i <= clusters@.len(),
            ds@.len() == i,
            forall|j: int|
                0 <= j < i ==> {
                    let d = #[trigger] ds@[j];
                    let c = clusters@[j];
                    &&& d.cluster_id == c.id
                    &&& string_views(d.added_txids@) == string_views(c.txids@)
                    &&& d.removed_txids@.len() == 0
                    &&& d.fee_delta == c.total_fee
                    &&& d.vsize_delta == c.total_vsize
                },
        decreases clusters@.len() - i,
    {
        ds.push(insertion_delta(&clusters[i]));
        i = i + 1;
    }
    ds
}

/// The progress of one sweep over candidate txids: the txids already covered
/// by a fetched cluster, whose own fetch would only return that cluster again.
#[derive(Debug)]
pub struct CandidateSweep {
    pub covered: Vec<String>,
}

impl CandidateSweep {
    /// A sweep that has covered nothing yet.
    pub fn new() -> (sweep: Self)
        ensures
            sweep.covered@.len() == 0,
    {
        CandidateSweep { covered: Vec::new() }
    }

    /// Whether `txid` still needs its cluster fetched.
    pub fn needs_fetch(&self, txid: &String) -> (needs: bool)
        ensures
            needs == !string_views(self.covered@).contains(txid@),
    {
        !contains_string(&self.covered, txid)
    }

    /// Records a fetched cluster of `tx_count` transactions with members
    /// `txids`, and says whether it is to be stored: a cluster needs at least two
    /// members.
    pub fn record(&mut self, txids: &Vec<String>, tx_count: u64) -> (store: bool)
        ensures
            string_views(final(self).covered@) == string_views(old(self).covered@) + string_views(
                txids@,
            ),
            store == (tx_count > 1),
    {
        let mut i: usize = 0;
        let ghost start = string_views(self.covered@);
        while i < txids.len()
            invariant
                i <= txids@.len(),
                string_views(self.covered@) == start + string_views(txids@).take(i as int),
            decreases txids@.len() - i,
        {
            let ghost before = self.covered@;
            self.covered.push(txids[i].clone());
            assert(string_views(self.covered@) =~= string_views(before).push(txids@[i as int]@));
            assert(string_views(txids@).take(i + 1) =~= string_views(txids@).take(i as int).push(
                txids@[i as int]@,
            ));
            i = i + 1;
        }
        assert(string_views(txids@).take(txids@.len() as int) =~= string_views(txids@));
        tx_count > 1
    }
}

/// What eviction does to one cluster.
#[derive(Debug)]
pub enum EvictionAction {
    /// Nothing to do: confirmed, already empty, or no member was evicted.
    Keep,
    /// Fewer than two members remain, so the cluster closes.
    Close,
    /// The cluster shrinks to the remaining members, in their order.
    Shrink(Vec<String>),
}

/// What eviction of `evicted` does to `cluster`, as the eviction handler decides
/// it: confirmed clusters keep their members; a cluster needs at least two members
/// to exist.
pub open spec fn eviction_spec(cluster: Cluster, evicted: Seq<Seq<char>>) -> Option<Option<
    Seq<Seq<char>>,
>> {
    let members = string_views(cluster.txids@);
    let remaining = without(members, evicted);
    if cluster.confirmed_at is Some || members.len() == 0 || remaining.len() == members.len() {
        None
    } else if remaining.len() < 2 {
        Some(None)
    } else {
        Some(Some(remaining))
    }
}

/// Decides what eviction of `evicted` does to `cluster`.
pub fn eviction_action(cluster: &Cluster, evicted: &Vec<String>) -> (action: EvictionAction)
    ensures
        match eviction_spec(*cluster, string_views(evicted@)) {
            None => action is Keep,
            Some(None) => action is Close,
            Some(Some(remaining)) => action matches EvictionAction::Shrink(r) && string_views(r@)
                == remaining,
        },
{
    if cluster.confirmed_at.is_some() || cluster.txids.len() == 0 {
        return EvictionAction::Keep;
    }
    let remaining = filter_strings(&cluster.txids, evicted, false);
    if remaining.len() == cluster.txids.len() {
        return EvictionAction::Keep;
    }
    if remaining.len() < 2 {
        return EvictionAction::Close;
    }
    EvictionAction::Shrink(remaining)
}

/// The log row that records `cluster` losing all its members and totals.
pub open spec fn closing_delta_spec(cluster: Cluster, d: NewClusterDelta) -> bool {
    &&& d.cluster_id == cluster.id
    &&& d.added_txids@.len() == 0
    &&& string_views(d.removed_txids@) == string_views(cluster.txids@)
    &&& d.fee_delta == -cluster.total_fee
    &&& d.vsize_delta == -cluster.total_vsize
}

/// The log row that records `cluster` being closed: every member leaves and the
/// totals go to zero.
pub fn closing_delta(cluster: &Cluster) -> (d: NewClusterDelta)
    requires
        cluster.total_fee > i64::MIN,
        cluster.total_vsize > i64::MIN,
    ensures
        closing_delta_spec(*cluster, d),
{
    NewClusterDelta {
        cluster_id: cluster.id,
        added_txids: Vec::new(),
        removed_txids: copy_strings(&cluster.txids),
        fee_delta: -cluster.total_fee,
        vsize_delta: -cluster.total_vsize,
    }
}

/// The log row, if any, that confirming `cluster` writes: none when it was
/// already confirmed (re-confirming is a no-op) or has no members left.
pub fn confirmation_delta(cluster: &Cluster) -> (d: Option<NewClusterDelta>)
    requires
        cluster.confirmed_at is None && cluster.txids@.len() > 0 ==> cluster.total_fee > i64::MIN
            && cluster.total_vsize > i64::MIN,
    ensures
        cluster.confirmed_at is Some || cluster.txids@.len() == 0 ==> d is None,
        cluster.confirmed_at is None && cluster.txids@.len() > 0 ==> (d matches Some(row)
            && closing_delta_spec(*cluster, row)),
{
    if cluster.confirmed_at.is_some() || cluster.txids.len() == 0 {
        None
    } else {
        Some(closing_delta(cluster))
    }
}

/// Whether `after` is the row `before` with `confirmed_at` set to `at`: the same
/// id, members, totals and first sighting.
pub open spec fn confirmed_as(before: Cluster, at: Option<i128>, after: Cluster) -> bool {
    &&& after.id == before.id
    &&& string_views(after.txids@) == string_views(before.txids@)
    &&& after.total_vsize == before.total_vsize
    &&& after.total_fee == before.total_fee
    &&& after.first_seen_at == before.first_seen_at
    &&& after.confirmed_at == at
}

/// Confirming the row `before` at `t` leaves the row `after` and writes the log
/// row `delta`, if any: re-confirming keeps the row and writes nothing; a first
/// confirmation sets the time, keeps members and totals, and closes the
/// membership in the log unless the cluster has no members.
pub open spec fn confirm_step(
    before: Cluster,
    t: i128,
    after: Cluster,
    delta: Option<NewClusterDelta>,
) -> bool {
    if before.confirmed_at is Some {
        confirmed_as(before, before.confirmed_at, after) && delta is None
    } else {
        &&& confirmed_as(before, Some(t), after)
        &&& before.txids@.len() == 0 ==> delta is None
        &&& before.txids@.len() > 0 ==> (delta matches Some(row) && closing_delta_spec(
            before,
            row,
        ))
    }
}

impl Cluster {
    /// A copy of this row, with `confirmed_at` set to `at`.
    pub fn with_confirmed_at(&self, at: Option<i128>) -> (c: Cluster)
        ensures
            confirmed_as(*self, at, c),
    {
        Cluster {
            id: self.id,
            txids: copy_strings(&self.txids),
            total_vsize: self.total_vsize,
            total_fee: self.total_fee,
            first_seen_at: self.first_seen_at,
            confirmed_at: at,
        }
    }
}

/// Confirms `cluster` at `t`: the row it becomes and the log row written, if
/// any. Re-confirming is a no-op.
pub fn confirm_cluster(cluster: &Cluster, t: i128) -> (res: (Cluster, Option<NewClusterDelta>))
    requires
        cluster.confirmed_at is None && cluster.txids@.len() > 0 ==> cluster.total_fee > i64::MIN
            && cluster.total_vsize > i64::MIN,
    ensures
        confirm_step(*cluster, t, res.0, res.1),
{
    let delta = confirmation_delta(cluster);
    if cluster.confirmed_at.is_some() {
        (cluster.with_confirmed_at(cluster.confirmed_at), delta)
    } else {
        (cluster.with_confirmed_at(Some(t)), delta)
    }
}

/// Confirming a cluster twice writes nothing new: the second confirmation keeps
/// the time, members and totals of the first and logs nothing.
pub proof fn confirming_twice_writes_nothing_new(
    c0: Cluster,
    t1: i128,
    c1: Cluster,
    d1: Option<NewClusterDelta>,
    t2: i128,
    c2: Cluster,
    d2: Option<NewClusterDelta>,
)
    requires
        confirm_step(c0, t1, c1, d1),
        confirm_step(c1, t2, c2, d2),
    ensures
        d2 is None,
        confirmed_as(c1, c1.confirmed_at, c2),
        c2.confirmed_at == (if c0.confirmed_at is Some {
            c0.confirmed_at
        } else {
            Some(t1)
        }),
{
}

/// The log row that records a membership replacement of `old` by `members` with
/// the given totals, or none when nothing changed: members that joined (in
/// `members` order), members that left (in `old` order) and the totals' change.
pub fn membership_delta(old: &Cluster, members: &Vec<String>, total_vsize: i64, total_fee: i64) -> (d:
    Option<NewClusterDelta>)
    requires
        i64::MIN <= total_fee - old.total_fee <= i64::MAX,
        i64::MIN <= total_vsize - old.total_vsize <= i64::MAX,
    ensures
        ({
            let added = without(string_views(members@), string_views(old.txids@));
            let removed = without(string_views(old.txids@), string_views(members@));
            let noop = added.len() == 0 && removed.len() == 0 && total_fee == old.total_fee
                && total_vsize == old.total_vsize;
            &&& noop ==> d is None
            &&& !noop ==> (d matches Some(row) && row.cluster_id == old.id && string_views(
                row.added_txids@,
            ) == added && string_views(row.removed_txids@) == removed && row.fee_delta
                == total_fee - old.total_fee && row.vsize_delta == total_vsize - old.total_vsize)
        }),
{
    let added_txids = filter_strings(members, &old.txids, false);
    let removed_txids = filter_strings(&old.txids, members, false);
    let fee_delta = total_fee - old.total_fee;
    let vsize_delta = total_vsize - old.total_vsize;
    if added_txids.len() == 0 && removed_txids.len() == 0 && fee_delta == 0 && vsize_delta == 0 {
        return None;
    }
    Some(NewClusterDelta { cluster_id: old.id, added_txids, removed_txids, fee_delta, vsize_delta })
}

/// The log row that records a brand-new cluster: every member joins and the
/// totals go from zero to the cluster's.
pub fn insertion_delta(cluster: &Cluster) -> (d: NewClusterDelta)
    ensures
        d.cluster_id == cluster.id,
        string_views(d.added_txids@) == string_views(cluster.txids@),
        d.removed_txids@.len() == 0,
        d.fee_delta == cluster.total_fee,
        d.vsize_delta == cluster.total_vsize,
{
    NewClusterDelta {
        cluster_id: cluster.id,
        added_txids: copy_strings(&cluster.txids),
        removed_txids: Vec::new(),
        fee_delta: cluster.total_fee,
        vsize_delta: cluster.total_vsize,
    }
}

} // verus!

verus! {

/// A transaction of a mined block, as the block handler sees it.
#[derive(Debug)]
pub struct MinedTx {
    pub txid: String,
    pub fee_sats: i64,
    pub vsize: i64,
    pub input_txids: Vec<String>,
}

/// The txids of a block's transactions.
pub open spec fn mined_txids(block: Seq<MinedTx>) -> Seq<Seq<char>> {
    block.map_values(|t: MinedTx| t.txid@)
}

/// The index of the last transaction of `block` with txid `t`: the one a map
/// built from the block in order keeps.
pub open spec fn last_index_with(block: Seq<MinedTx>, t: Seq<char>) -> Option<int>
    decreases block.len(),
{
    if block.len() == 0 {
        None
    } else if block.last().txid@ == t {
        Some(block.len() - 1)
    } else {
        last_index_with(block.drop_last(), t)
    }
}

/// The fee (`fees`) or vsize (`!fees`) `block` records for txid `t`, or zero.
pub open spec fn mined_value(block: Seq<MinedTx>, t: Seq<char>, fees: bool) -> int {
    match last_index_with(block, t) {
        Some(i) => if fees {
            block[i].fee_sats as int
        } else {
            block[i].vsize as int
        },
        None => 0,
    }
}

/// The sum of fees (`fees`) or of vsizes (`!fees`) over the members of `members`
/// found in `block`; members not found count nothing.
pub open spec fn mined_total(members: Seq<Seq<char>>, block: Seq<MinedTx>, fees: bool) -> int
    decreases members.len(),
{
    if members.len() == 0 {
        0
    } else {
        mined_total(members.drop_last(), block, fees) + mined_value(block, members.last(), fees)
    }
}

/// Whether every running sum of `mined_total` over `members` fits in an `i64`.
pub open spec fn mined_total_fits(members: Seq<Seq<char>>, block: Seq<MinedTx>, fees: bool) -> bool {
    forall|k: int|
        0 <= k <= members.len() ==> i64::MIN <= #[trigger] mined_total(members.take(k), block, fees)
            <= i64::MAX
}

proof fn lemma_last_index_with_bounds(block: Seq<MinedTx>, t: Seq<char>)
    ensures
        last_index_with(block, t) matches Some(i) ==> 0 <= i < block.len() && block[i].txid@ == t,
        last_index_with(block, t) is None ==> !mined_txids(block).contains(t),
    decreases block.len(),
{
    if block.len() > 0 {
        lemma_last_index_with_bounds(block.drop_last(), t);
        if last_index_with(block, t) is None {
            if mined_txids(block).contains(t) {
                let j = choose|j: int| 0 <= j < mined_txids(block).len() && mined_txids(block)[j] == t;
                assert(mined_txids(block.drop_last())[j] == t);
            }
        }
    }
}

/// The index of the last transaction of `block` with txid `t`.
fn find_mined(block: &Vec<MinedTx>, t: &String) -> (idx: Option<usize>)
    ensures
        last_index_with(block@, t@) == match idx {
            Some(p) => Some(p as int),
            None => None,
        },
{
    let mut i = block.len();
    assert(block@.take(i as int) =~= block@);
    while i > 0
        invariant
            i <= block@.len(),
            last_index_with(block@, t@) == last_index_with(block@.take(i as int), t@),
        decreases i,
    {
        assert(block@.take(i as int).drop_last() =~= block@.take(i - 1));
        if block[i - 1].txid == *t {
            return Some(i - 1);
        }
        i = i - 1;
    }
    None
}

/// `mined_total` over the strings of `members`.
fn sum_mined(members: &Vec<String>, block: &Vec<MinedTx>, fees: bool) -> (total: i64)
    requires
        mined_total_fits(string_views(members@), block@, fees),
    ensures
        total == mined_total(string_views(members@), block@, fees),
{
    let ghost ms = string_views(members@);
    let mut total: i64 = 0;
    let mut k: usize = 0;
    while k < members.len()
        invariant
            k <= members@.len(),
            ms == string_views(members@),
            mined_total_fits(ms, block@, fees),
            total == mined_total(ms.take(k as int), block@, fees),
        decreases members@.len() - k,
    {
        assert(ms.take(k + 1).drop_last() =~= ms.take(k as int));
        assert(ms.take(k + 1).last() == members@[k as int]@);
        let found = find_mined(block, &members[k]);
        proof {
            lemma_last_index_with_bounds(block@, members@[k as int]@);
        }
        assert(i64::MIN <= mined_total(ms.take(k + 1), block@, fees) <= i64::MAX);
        let ghost next = mined_total(ms.take(k + 1), block@, fees);
        assert(next == total + mined_value(block@, members@[k as int]@, fees));
        match found {
            Some(i) => {
                if fees {
                    assert(next == total + block@[i as int].fee_sats);
                    total = total + block[i].fee_sats;
                } else {
                    assert(next == total + block@[i as int].vsize);
                    total = total + block[i].vsize;
                }
            },
            None => {
                assert(next == total);
            },
        }
        k = k + 1;
    }
    assert(ms.take(members@.len() as int) =~= ms);
    total
}

/// The txids of `block`'s transactions, in order.
fn block_txids(block: &Vec<MinedTx>) -> (txids: Vec<String>)
    ensures
        string_views(txids@) == mined_txids(block@),
{
    let mut txids: Vec<String> = Vec::new();
    let mut i: usize = 0;
    while i < block.len()
        invariant
            i <= block@.len(),
            string_views(txids@) == mined_txids(block@).take(i as int),
        decreases block@.len() - i,
    {
        let ghost before = txids@;
        txids.push(block[i].txid.clone());
        assert(string_views(txids@) =~= string_views(before).push(block@[i as int].txid@));
        assert(mined_txids(block@).take(i + 1) =~= mined_txids(block@).take(i as int).push(
            block@[i as int].txid@,
        ));
        i = i + 1;
    }
    assert(mined_txids(block@).take(block@.len() as int) =~= mined_txids(block@));
    txids
}

/// Whether every running sum of the fees (`fees`) or vsizes (`!fees`) over
/// `members` found in `block` fits in an `i64`.
fn mined_sums_fit_in(members: &Vec<String>, block: &Vec<MinedTx>, fees: bool) -> (ok: bool)
    ensures
        ok == mined_total_fits(string_views(members@), block@, fees),
{
    let ghost ms = string_views(members@);
    let mut total: i64 = 0;
    let mut k: usize = 0;
    assert(ms.take(0) =~= Seq::<Seq<char>>::empty());
    while k < members.len()
        invariant
            k <= members@.len(),
            ms == string_views(members@),
            total == mined_total(ms.take(k as int), block@, fees),
            forall|j: int| 0 <= j <= k ==> i64::MIN <= #[trigger] mined_total(ms.take(j), block@, fees)
                <= i64::MAX,
        decreases members@.len() - k,
    {
        assert(ms.take(k + 1).drop_last() =~= ms.take(k as int));
        assert(ms.take(k + 1).last() == members@[k as int]@);
        let found = find_mined(block, &members[k]);
        proof {
            lemma_last_index_with_bounds(block@, members@[k as int]@);
        }
        let value: i64 = match found {
            Some(i) => if fees {
                block[i].fee_sats
            } else {
                block[i].vsize
            },
            None => 0,
        };
        assert(mined_total(ms.take(k + 1), block@, fees) == total + value);
        match total.checked_add(value) {
            Some(t) => {
                total = t;
            },
            None => {
                assert(!(i64::MIN <= mined_total(ms.take(k + 1), block@, fees) <= i64::MAX));
                return false;
            },
        }
        k = k + 1;
    }
    assert(ms.take(members@.len() as int) =~= ms);
    assert forall|j: int| 0 <= j <= ms.len() implies i64::MIN <= #[trigger] mined_total(
        ms.take(j),
        block@,
        fees,
    ) <= i64::MAX by {}
    true
}

/// Whether the fee and vsize sums over the members of `cluster` that `block`
/// mined fit in an `i64` at every step, so that a confirmation round may take
/// the cluster up.
pub fn mined_sums_fit_check(cluster: &Cluster, block: &Vec<MinedTx>) -> (ok: bool)
    ensures
        ok == mined_sums_fit(*cluster, block@),
{
    let txids = block_txids(block);
    let mined = filter_strings(&cluster.txids, &txids, true);
    mined_sums_fit_in(&mined, block, true) && mined_sums_fit_in(&mined, block, false)
}

/// What a mined block does to one of the clusters its transactions belonged to.
#[derive(Debug)]
pub enum MinedOutcome {
    /// Every member was mined: the cluster is confirmed as it is.
    FullyConfirmed,
    /// Some members were mined: the cluster keeps the mined members and their
    /// totals before it is confirmed, and the still-pending members go back to
    /// cluster discovery.
    Partial { confirmed: Vec<String>, unconfirmed: Vec<String>, total_fee: i64, total_vsize: i64 },
}

/// Splits `cluster` by which of its members `block` mined.
pub fn mined_outcome(cluster: &Cluster, block: &Vec<MinedTx>) -> (outcome: MinedOutcome)
    requires
        mined_total_fits(
            within(string_views(cluster.txids@), mined_txids(block@)),
            block@,
            true,
        ),
        mined_total_fits(
            within(string_views(cluster.txids@), mined_txids(block@)),
            block@,
            false,
        ),
    ensures
        ({
            let members = string_views(cluster.txids@);
            let mined = within(members, mined_txids(block@));
            let pending = without(members, mined_txids(block@));
            &&& pending.len() == 0 ==> outcome is FullyConfirmed
            &&& pending.len() > 0 ==> (outcome matches MinedOutcome::Partial {
                confirmed,
                unconfirmed,
                total_fee,
                total_vsize,
            } && string_views(confirmed@) == mined && string_views(unconfirmed@) == pending
                && total_fee == mined_total(mined, block@, true) && total_vsize == mined_total(
                mined,
                block@,
                false,
            ))
        }),
{
    let txids = block_txids(block);
    let unconfirmed = filter_strings(&cluster.txids, &txids, false);
    if unconfirmed.len() == 0 {
        return MinedOutcome::FullyConfirmed;
    }
    let confirmed = filter_strings(&cluster.txids, &txids, true);
    let total_fee = sum_mined(&confirmed, block, true);
    let total_vsize = sum_mined(&confirmed, block, false);
    MinedOutcome::Partial { confirmed, unconfirmed, total_fee, total_vsize }
}

/// `a` is no later than `b`, an unknown time counting as earliest.
pub open spec fn seen_no_later(a: Option<i128>, b: Option<i128>) -> bool {
    match (a, b) {
        (None, _) => true,
        (Some(_), None) => false,
        (Some(x), Some(y)) => x <= y,
    }
}

/// The index of the first cluster of `s` seen earliest: the one `min_by_key` on
/// `first_seen_at` picks.
pub open spec fn earliest_index(s: Seq<Cluster>) -> int
    decreases s.len(),
{
    if s.len() <= 1 {
        0
    } else {
        let m = earliest_index(s.drop_last());
        if seen_no_later(s[m].first_seen_at, s.last().first_seen_at) {
            m
        } else {
            s.len() - 1
        }
    }
}

proof fn lemma_earliest_index_bounds(s: Seq<Cluster>)
    requires
        s.len() > 0,
    ensures
        0 <= earliest_index(s) < s.len(),
    decreases s.len(),
{
    if s.len() > 1 {
        lemma_earliest_index_bounds(s.drop_last());
    }
}

/// The ids of the clusters of `s`, in order.
pub open spec fn cluster_ids(s: Seq<Cluster>) -> Seq<i64> {
    s.map_values(|c: Cluster| c.id)
}

/// Whether an id is not `keep`.
pub open spec fn is_not(keep: i64) -> spec_fn(i64) -> bool {
    |id: i64| id != keep
}

/// The ids of `s` other than `keep`, in order.
pub open spec fn other_ids(s: Seq<Cluster>, keep: i64) -> Seq<i64> {
    cluster_ids(s).filter(is_not(keep))
}

/// How clusters that turn out to cover one group merge: the one seen earliest is
/// kept, every other is closed.
pub fn merge_plan(existing: &Vec<Cluster>) -> (plan: Option<(i64, Vec<i64>)>)
    ensures
        existing@.len() == 0 ==> plan is None,
        existing@.len() > 0 ==> (plan matches Some((keep, closed)) && keep
            == existing@[earliest_index(existing@)].id && closed@ == other_ids(existing@, keep)),
{
    if existing.len() == 0 {
        return None;
    }
    let mut m: usize = 0;
    let mut i: usize = 1;
    while i < existing.len()
        invariant
            1 <= i <= existing@.len(),
            m < i,
            m == earliest_index(existing@.take(i as int)),
        decreases existing@.len() - i,
    {
        proof {
            lemma_earliest_index_bounds(existing@.take(i as int));
        }
        assert(existing@.take(i + 1).drop_last() =~= existing@.take(i as int));
        let earlier = match (existing[m].first_seen_at, existing[i].first_seen_at) {
            (None, _) => true,
            (Some(_), None) => false,
            (Some(x), Some(y)) => x <= y,
        };
        if !earlier {
            m = i;
        }
        i = i + 1;
    }
    assert(existing@.take(existing@.len() as int) =~= existing@);
    let keep = existing[m].id;
    let ghost ids = cluster_ids(existing@);
    let mut closed: Vec<i64> = Vec::new();
    let mut j: usize = 0;
    while j < existing.len()
        invariant
            j <= existing@.len(),
            ids == cluster_ids(existing@),
            closed@ == ids.take(j as int).filter(is_not(keep)),
        decreases existing@.len() - j,
    {
        assert(ids.take(j + 1).drop_last() =~= ids.take(j as int));
        reveal_with_fuel(Seq::filter, 1);
        let id = existing[j].id;
        if id != keep {
            closed.push(id);
        }
        j = j + 1;
    }
    assert(ids.take(existing@.len() as int) =~= ids);
    Some((keep, closed))
}


/// Where one upsert of a node-reported cluster group stands.
#[derive(Debug)]
pub enum UpsertState {
    /// Waiting for the ids of the stored clusters that hold any of the group's
    /// transactions.
    FindingExisting,
    /// Waiting for the group to be stored as a new cluster.
    Inserting,
    /// Waiting for the stored clusters that cover the group.
    Loading,
    /// Waiting for the clusters `closed` to be closed; `keep` is the one that
    /// takes the group over.
    Closing { keep: i64, closed: Vec<i64> },
    /// Waiting for cluster `keep`'s members to be replaced by the group.
    Replacing { keep: i64 },
    /// The round is over, stored or abandoned.
    Done,
}

/// What an upsert round learned from the store.
#[derive(Debug)]
pub enum UpsertEvent {
    /// The ids of the stored clusters holding any of the group's transactions.
    ExistingFound(Vec<i64>),
    /// The new cluster's row.
    Inserted(Cluster),
    /// The stored clusters, as loaded.
    Loaded(Vec<Cluster>),
    /// The clusters being closed were closed.
    Closed,
    /// The kept cluster's row after its members were replaced.
    Replaced(Cluster),
    /// A store call failed.
    Failed,
}

/// A cluster group as the node reports it: its members and totals.
#[derive(Debug)]
pub struct ClusterGroup {
    pub txids: Vec<String>,
    pub total_vsize: i64,
    pub total_fee: i64,
}

/// What an upsert round does next.
#[derive(Debug, PartialEq, Eq)]
pub enum UpsertAction {
    /// Look up the stored clusters holding any of these txids.
    FindExisting(Vec<String>),
    /// Store a new cluster, first seen now, with these members and totals.
    Insert { txids: Vec<String>, total_vsize: i64, total_fee: i64 },
    /// Load the stored clusters with these ids.
    Load(Vec<i64>),
    /// Close the clusters with these ids; they merged into another.
    Close(Vec<i64>),
    /// Replace the members and totals of cluster `id` by these.
    Replace { id: i64, members: Vec<String>, total_vsize: i64, total_fee: i64 },
    /// The round is over: publish what was marked.
    Finish,
}

/// Whether `action` stores `group` as a new cluster: its members, in order, and
/// its totals.
pub open spec fn inserts_group(action: UpsertAction, group: ClusterGroup) -> bool {
    action matches UpsertAction::Insert { txids, total_vsize, total_fee } && string_views(txids@)
        == string_views(group.txids@) && total_vsize == group.total_vsize && total_fee
        == group.total_fee
}

/// Whether `action` gives cluster `id` the members and totals of `group`.
pub open spec fn replaces_with_group(action: UpsertAction, id: i64, group: ClusterGroup) -> bool {
    action matches UpsertAction::Replace { id: i, members, total_vsize, total_fee } && i == id
        && string_views(members@) == string_views(group.txids@) && total_vsize == group.total_vsize
        && total_fee == group.total_fee
}

/// The insertion of `group` as a new cluster.
fn insert_action(group: &ClusterGroup) -> (action: UpsertAction)
    ensures
        inserts_group(action, *group),
{
    UpsertAction::Insert {
        txids: copy_strings(&group.txids),
        total_vsize: group.total_vsize,
        total_fee: group.total_fee,
    }
}

/// The replacement of cluster `id`'s members and totals by `group`'s.
fn replace_action(id: i64, group: &ClusterGroup) -> (action: UpsertAction)
    ensures
        replaces_with_group(action, id, *group),
{
    UpsertAction::Replace {
        id,
        members: copy_strings(&group.txids),
        total_vsize: group.total_vsize,
        total_fee: group.total_fee,
    }
}

/// Whether `event` is the answer `state` waits for. A failure may answer any
/// pending call.
pub open spec fn upsert_expects(state: UpsertState, event: UpsertEvent) -> bool {
    match (state, event) {
        (UpsertState::Done, _) => false,
        (_, UpsertEvent::Failed) => true,
        (UpsertState::FindingExisting, UpsertEvent::ExistingFound(_)) => true,
        (UpsertState::Inserting, UpsertEvent::Inserted(_)) => true,
        (UpsertState::Loading, UpsertEvent::Loaded(_)) => true,
        (UpsertState::Closing { .. }, UpsertEvent::Closed) => true,
        (UpsertState::Replacing { .. }, UpsertEvent::Replaced(_)) => true,
        _ => false,
    }
}

/// `after` is `before` with every id of `ids` marked removed.
pub open spec fn removals_step(before: DeltaModel, ids: Seq<i64>, after: DeltaModel) -> bool {
    &&& after.0 == before.0.remove_keys(ids.to_set())
    &&& after.1 == before.1.union(ids.to_set())
}

/// How one step of an upsert round moves the delta set: a cluster is marked only
/// once the store reported the write that changed it.
pub open spec fn upsert_marks(
    state: UpsertState,
    event: UpsertEvent,
    before: DeltaModel,
    after: DeltaModel,
) -> bool {
    match event {
        UpsertEvent::Inserted(c) => upsert_step(before, c, after),
        UpsertEvent::Replaced(c) => upsert_step(before, c, after),
        UpsertEvent::Closed => removals_step(before, state->Closing_closed@, after),
        _ => after == before,
    }
}

/// Where an upsert round goes on `event` from `state`, and what it does next.
pub open spec fn upsert_next(
    group: ClusterGroup,
    state: UpsertState,
    event: UpsertEvent,
    next: UpsertState,
    action: UpsertAction,
) -> bool {
    match event {
        UpsertEvent::Failed => next is Done && action is Finish,
        UpsertEvent::ExistingFound(ids) => if ids@.len() == 0 {
            next is Inserting && inserts_group(action, group)
        } else {
            next is Loading && action == UpsertAction::Load(ids)
        },
        UpsertEvent::Inserted(_) => next is Done && action is Finish,
        UpsertEvent::Loaded(cs) => if cs@.len() == 0 {
            next is Done && action is Finish
        } else {
            let keep = cs@[earliest_index(cs@)].id;
            let others = other_ids(cs@, keep);
            if others.len() == 0 {
                next == (UpsertState::Replacing { keep }) && replaces_with_group(action, keep, group)
            } else {
                &&& next matches UpsertState::Closing { keep: k, closed } && k == keep && closed@
                    == others
                &&& action matches UpsertAction::Close(ids) && ids@ == others
            }
        },
        UpsertEvent::Closed => next == (UpsertState::Replacing { keep: state->Closing_keep })
            && replaces_with_group(action, state->Closing_keep, group),
        UpsertEvent::Replaced(_) => next is Done && action is Finish,
    }
}

/// Where an upsert round of `group` starts: looking up the stored clusters that
/// hold any of its members.
pub fn upsert_start(group: &ClusterGroup) -> (res: (UpsertState, UpsertAction))
    ensures
        res.0 is FindingExisting,
        res.1 matches UpsertAction::FindExisting(txids) && string_views(txids@) == string_views(
            group.txids@,
        ),
{
    (UpsertState::FindingExisting, UpsertAction::FindExisting(copy_strings(&group.txids)))
}

/// One step of an upsert round. A group that no stored cluster holds is
/// inserted; otherwise the stored clusters are loaded, the one seen earliest is
/// kept, the others are closed, and the kept one takes the group's members and
/// totals. The round ends at the first failure, keeping what was marked so far.
pub fn upsert_round_step(
    group: &ClusterGroup,
    state: UpsertState,
    event: UpsertEvent,
    changes: &mut ClusterDeltaSet,
) -> (res: (UpsertState, UpsertAction))
    requires
        upsert_expects(state, event),
        old(changes).wf(),
    ensures
        final(changes).wf(),
        upsert_marks(state, event, old(changes).model(), final(changes).model()),
        upsert_next(*group, state, event, res.0, res.1),
{
    match event {
        UpsertEvent::Failed => (UpsertState::Done, UpsertAction::Finish),
        UpsertEvent::ExistingFound(ids) => {
            if ids.len() == 0 {
                (UpsertState::Inserting, insert_action(group))
            } else {
                (UpsertState::Loading, UpsertAction::Load(ids))
            }
        },
        UpsertEvent::Inserted(row) => {
            changes.mark_upserted(&row);
            (UpsertState::Done, UpsertAction::Finish)
        },
        UpsertEvent::Loaded(existing) => match merge_plan(&existing) {
            None => (UpsertState::Done, UpsertAction::Finish),
            Some((keep, closed)) => {
                if closed.len() == 0 {
                    (UpsertState::Replacing { keep }, replace_action(keep, group))
                } else {
                    let ids = copy_ids(&closed);
                    (UpsertState::Closing { keep, closed }, UpsertAction::Close(ids))
                }
            },
        },
        UpsertEvent::Closed => match state {
            UpsertState::Closing { keep, closed } => {
                mark_all_removed(changes, &closed);
                (UpsertState::Replacing { keep }, replace_action(keep, group))
            },
            _ => (UpsertState::Done, UpsertAction::Finish),
        },
        UpsertEvent::Replaced(row) => {
            changes.mark_upserted(&row);
            (UpsertState::Done, UpsertAction::Finish)
        },
    }
}

/// A copy of `ids`.
fn copy_ids(ids: &Vec<i64>) -> (out: Vec<i64>)
    ensures
        out@ == ids@,
{
    let mut out: Vec<i64> = Vec::new();
    let mut k: usize = 0;
    while k < ids.len()
        invariant
            k <= ids@.len(),
            out@ == ids@.take(k as int),
        decreases ids@.len() - k,
    {
        out.push(ids[k]);
        assert(out@ =~= ids@.take(k + 1));
        k = k + 1;
    }
    assert(ids@.take(ids@.len() as int) =~= ids@);
    out
}

/// Marks every id of `ids` removed.
fn mark_all_removed(changes: &mut ClusterDeltaSet, ids: &Vec<i64>)
    requires
        old(changes).wf(),
    ensures
        final(changes).wf(),
        removals_step(old(changes).model(), ids@, final(changes).model()),
{
    let ghost start = changes.model();
    assert(ids@.take(0).to_set() =~= Set::<i64>::empty());
    assert(start.0.remove_keys(Set::<i64>::empty()) =~= start.0);
    assert(start.1.union(Set::<i64>::empty()) =~= start.1);
    let mut k: usize = 0;
    while k < ids.len()
        invariant
            k <= ids@.len(),
            changes.wf(),
            removals_step(start, ids@.take(k as int), changes.model()),
        decreases ids@.len() - k,
    {
        let id = ids[k];
        assert(ids@.take(k + 1).to_set() =~= ids@.take(k as int).to_set().insert(id)) by {
            assert(ids@.take(k + 1) =~= ids@.take(k as int).push(id));
            ids@.take(k as int).lemma_push_to_set_commute(id);
        }
        changes.mark_removed(id);
        assert(changes.model().0 =~= start.0.remove_keys(ids@.take(k + 1).to_set()));
        assert(changes.model().1 =~= start.1.union(ids@.take(k + 1).to_set()));
        k = k + 1;
    }
    assert(ids@.take(ids@.len() as int) =~= ids@);
}

/// A merge round that runs to its end, starting from an empty delta set, leaves
/// exactly the kept cluster upserted, as the store returned it, and every other
/// cluster that covered the group removed.
pub proof fn a_merge_round_keeps_one_and_removes_the_others(
    cs: Seq<Cluster>,
    closed: Seq<i64>,
    s1: DeltaModel,
    row: Cluster,
    s2: DeltaModel,
)
    requires
        cs.len() > 0,
        closed == other_ids(cs, cs[earliest_index(cs)].id),
        row.id == cs[earliest_index(cs)].id,
        removals_step((Map::empty(), Set::empty()), closed, s1),
        upsert_step(s1, row, s2),
    ensures
        s2.0.dom() == set![row.id],
        describes(s2.0[row.id], row),
        s2.1 == closed.to_set(),
        !s2.1.contains(row.id),
{
    let keep = row.id;
    assert(!closed.to_set().contains(keep)) by {
        if closed.to_set().contains(keep) {
            let f = is_not(keep);
            assert(closed.contains(keep));
            let j = choose|j: int| 0 <= j < closed.len() && closed[j] == keep;
            broadcast use vstd::seq_lib::group_filter_ensures;
            assert(f(closed[j]));
        }
    }
    assert(s1.0 =~= Map::<i64, ClusterRef>::empty());
    assert(s2.0.remove(keep) =~= Map::<i64, ClusterRef>::empty());
    assert(s2.0.dom() =~= set![keep]) by {
        assert forall|id: i64| s2.0.dom().contains(id) implies id == keep by {
            if id != keep {
                assert(s2.0.remove(keep).contains_key(id));
            }
        }
    }
    assert(s2.1 =~= closed.to_set());
}


/// The clusters of `answers` that the active set reported as news, in order.
pub open spec fn reported(answers: Seq<Option<ClusterRef>>) -> Seq<ClusterRef>
    decreases answers.len(),
{
    if answers.len() == 0 {
        Seq::empty()
    } else {
        let rest = reported(answers.drop_last());
        match answers.last() {
            Some(r) => rest.push(r),
            None => rest,
        }
    }
}

/// The ids of `answers` that the active set held, in order.
pub open spec fn were_active(answers: Seq<(i64, bool)>) -> Seq<i64>
    decreases answers.len(),
{
    if answers.len() == 0 {
        Seq::empty()
    } else {
        let rest = were_active(answers.drop_last());
        if answers.last().1 {
            rest.push(answers.last().0)
        } else {
            rest
        }
    }
}

/// The event a round publishes, given what the active set answered: for each
/// upserted cluster, what clients should be told of it, if anything changed;
/// for each removed id, whether it was active. Clients hear only of changes they
/// did not know and of removals of clusters they knew; a round with neither
/// publishes nothing.
pub fn publishable_delta(upserted: Vec<Option<ClusterRef>>, removed: Vec<(i64, bool)>) -> (event: Option<
    (Vec<ClusterRef>, Vec<i64>),
>)
    ensures
        event is None <==> reported(upserted@).len() == 0 && were_active(removed@).len() == 0,
        event matches Some((u, r)) ==> u@ == reported(upserted@) && r@ == were_active(removed@),
{
    let ghost all_up = upserted@;
    let mut news: Vec<ClusterRef> = Vec::new();
    for answer in it: upserted
        invariant
            it.seq() == all_up,
            news@ == reported(all_up.take(it.index() as int)),
    {
        assert(all_up.take(it.index() + 1).drop_last() =~= all_up.take(it.index() as int));
        match answer {
            Some(r) => news.push(r),
            None => {},
        }
    }
    assert(all_up.take(all_up.len() as int) =~= all_up);
    let mut gone: Vec<i64> = Vec::new();
    let mut k: usize = 0;
    while k < removed.len()
        invariant
            k <= removed@.len(),
            gone@ == were_active(removed@.take(k as int)),
        decreases removed@.len() - k,
    {
        assert(removed@.take(k + 1).drop_last() =~= removed@.take(k as int));
        let (id, active) = removed[k];
        if active {
            gone.push(id);
        }
        k = k + 1;
    }
    assert(removed@.take(removed@.len() as int) =~= removed@);
    if news.len() == 0 && gone.len() == 0 {
        None
    } else {
        Some((news, gone))
    }
}


/// Whether the fee and vsize sums over the members of `c` that `block` mined fit
/// in an `i64` at every step.
pub open spec fn mined_sums_fit(c: Cluster, block: Seq<MinedTx>) -> bool {
    let mined = within(string_views(c.txids@), mined_txids(block));
    mined_total_fits(mined, block, true) && mined_total_fits(mined, block, false)
}

/// Where the handling of one loaded cluster stands in a confirmation round.
#[derive(Debug)]
pub enum ConfirmStage {
    /// Waiting for the cluster to keep only its mined members; `pending` are the
    /// others.
    Replacing { pending: Vec<String> },
    /// Waiting for the cluster to be confirmed; `rest` are its members that
    /// were not mined, if it was mined in part.
    Confirming { rest: Option<Vec<String>> },
    /// Waiting for cluster discovery over the members that were not mined.
    Syncing,
}

/// Where the round that confirms the clusters of a mined block stands.
#[derive(Debug)]
pub enum ConfirmState {
    /// Waiting for the ids of the clusters holding any of the block's txids.
    FindingClusters,
    /// Waiting for those clusters.
    Loading,
    /// Handling `clusters[at]`, the clusters being handled in order.
    Handling { clusters: Vec<Cluster>, at: usize, stage: ConfirmStage },
    /// The round is over.
    Done,
}

/// What a confirmation round learned.
#[derive(Debug)]
pub enum ConfirmEvent {
    /// The ids of the clusters holding any of the block's txids.
    ClustersFound(Vec<i64>),
    /// The clusters, as loaded.
    Loaded(Vec<Cluster>),
    /// The cluster now holds only its mined members.
    Replaced,
    /// The cluster was confirmed.
    Confirmed,
    /// Cluster discovery over the pending members is done; what it touched.
    CandidatesSynced(ClusterDeltaSet),
    /// A store call failed.
    Failed,
}

/// What a confirmation round does next.
#[derive(Debug, PartialEq, Eq)]
pub enum ConfirmAction {
    /// Look up the clusters holding any of these txids.
    FindClusters(Vec<String>),
    /// Load the clusters with these ids.
    Load(Vec<i64>),
    /// Give cluster `id` these members and totals.
    Replace { id: i64, members: Vec<String>, total_vsize: i64, total_fee: i64 },
    /// Confirm cluster `id` at the block's time.
    Confirm(i64),
    /// Run cluster discovery over these txids.
    SyncCandidates(Vec<String>),
    /// The round is over: publish what was marked.
    Finish,
}

/// Whether `event` is the answer `state` waits for, every loaded cluster's mined
/// sums fit, and a cluster being handled exists.
pub open spec fn confirm_expects(block: Seq<MinedTx>, state: ConfirmState, event: ConfirmEvent) -> bool {
    &&& match state {
        ConfirmState::Handling { clusters, at, .. } => at < clusters@.len() && forall|k: int|
            0 <= k < clusters@.len() ==> mined_sums_fit(#[trigger] clusters@[k], block),
        _ => true,
    }
    &&& match (state, event) {
        (ConfirmState::Done, _) => false,
        (ConfirmState::Handling { stage: ConfirmStage::Syncing, .. }, ConfirmEvent::Failed) => false,
        (_, ConfirmEvent::Failed) => true,
        (ConfirmState::FindingClusters, ConfirmEvent::ClustersFound(_)) => true,
        (ConfirmState::Loading, ConfirmEvent::Loaded(cs)) => forall|k: int|
            0 <= k < cs@.len() ==> mined_sums_fit(#[trigger] cs@[k], block),
        (
            ConfirmState::Handling { stage: ConfirmStage::Replacing { .. }, .. },
            ConfirmEvent::Replaced,
        ) => true,
        (
            ConfirmState::Handling { stage: ConfirmStage::Confirming { .. }, .. },
            ConfirmEvent::Confirmed,
        ) => true,
        (
            ConfirmState::Handling { stage: ConfirmStage::Syncing, .. },
            ConfirmEvent::CandidatesSynced(d),
        ) => d.wf(),
        _ => false,
    }
}

/// How a confirmation round takes up `clusters[k]`, or ends when none is left: a
/// fully mined cluster is confirmed as it is; one mined in part first keeps only
/// its mined members, with their fee and vsize sums from the block.
pub open spec fn confirm_begins(
    block: Seq<MinedTx>,
    clusters: Vec<Cluster>,
    k: int,
    next: ConfirmState,
    action: ConfirmAction,
) -> bool {
    if k >= clusters@.len() {
        next is Done && action is Finish
    } else {
        let c = clusters@[k];
        let members = string_views(c.txids@);
        let mined = within(members, mined_txids(block));
        let pending = without(members, mined_txids(block));
        &&& next matches ConfirmState::Handling { clusters: cs, at, stage } && cs@ == clusters@
            && at == k && (if pending.len() == 0 {
            stage matches ConfirmStage::Confirming { rest: None }
        } else {
            stage matches ConfirmStage::Replacing { pending: p } && string_views(p@) == pending
        })
        &&& if pending.len() == 0 {
            action == ConfirmAction::Confirm(c.id)
        } else {
            action matches ConfirmAction::Replace { id, members: m, total_vsize, total_fee } && id
                == c.id && string_views(m@) == mined && total_fee == mined_total(mined, block, true)
                && total_vsize == mined_total(mined, block, false)
        }
    }
}

/// Where a confirmation round goes on `event`, and what it does next. After a
/// cluster's confirmation, successful or not, its pending members go to cluster
/// discovery; a failed replacement skips the cluster.
pub open spec fn confirm_next(
    block: Seq<MinedTx>,
    state: ConfirmState,
    event: ConfirmEvent,
    next: ConfirmState,
    action: ConfirmAction,
) -> bool {
    match state {
        ConfirmState::FindingClusters => match event {
            ConfirmEvent::ClustersFound(ids) => if ids@.len() == 0 {
                next is Done && action is Finish
            } else {
                next is Loading && action == ConfirmAction::Load(ids)
            },
            _ => next is Done && action is Finish,
        },
        ConfirmState::Loading => match event {
            ConfirmEvent::Loaded(cs) => confirm_begins(block, cs, 0, next, action),
            _ => next is Done && action is Finish,
        },
        ConfirmState::Handling { clusters, at, stage } => match (stage, event) {
            (ConfirmStage::Replacing { pending }, ConfirmEvent::Replaced) => (next
                matches ConfirmState::Handling { clusters: cs, at: a, stage: st } && cs@
                == clusters@ && a == at && (st matches ConfirmStage::Confirming { rest: Some(p) }
                && p@ == pending@)) && action == ConfirmAction::Confirm(clusters@[at as int].id),
            (ConfirmStage::Confirming { rest: Some(p) }, _) => (next
                matches ConfirmState::Handling { clusters: cs, at: a, stage: st } && cs@
                == clusters@ && a == at && st is Syncing) && action
                == ConfirmAction::SyncCandidates(p),
            _ => confirm_begins(block, clusters, at + 1, next, action),
        },
        ConfirmState::Done => true,
    }
}

/// How a confirmation step moves the delta set: a cluster is marked removed once
/// its confirmation succeeded, and what cluster discovery touched is folded in.
pub open spec fn confirm_marks(
    state: ConfirmState,
    event: ConfirmEvent,
    before: DeltaModel,
    after: DeltaModel,
) -> bool {
    match event {
        ConfirmEvent::Confirmed => remove_step(
            before,
            state->Handling_clusters@[state->Handling_at as int].id,
            after,
        ),
        ConfirmEvent::CandidatesSynced(d) => merge_step(before, d.model(), after),
        _ => after == before,
    }
}

/// Where the confirmation round of a mined block starts: looking up the clusters
/// of the block's transactions.
pub fn confirm_start(block: &Vec<MinedTx>) -> (res: (ConfirmState, ConfirmAction))
    ensures
        res.0 is FindingClusters,
        res.1 matches ConfirmAction::FindClusters(txids) && string_views(txids@) == mined_txids(
            block@,
        ),
{
    (ConfirmState::FindingClusters, ConfirmAction::FindClusters(block_txids(block)))
}

/// Takes up `clusters[k]`, or ends the round when none is left.
fn confirm_begin(block: &Vec<MinedTx>, clusters: Vec<Cluster>, k: usize) -> (res: (
    ConfirmState,
    ConfirmAction,
))
    requires
        k <= clusters@.len(),
        forall|j: int| 0 <= j < clusters@.len() ==> mined_sums_fit(#[trigger] clusters@[j], block@),
    ensures
        confirm_begins(block@, clusters, k as int, res.0, res.1),
{
    if k >= clusters.len() {
        return (ConfirmState::Done, ConfirmAction::Finish);
    }
    assert(mined_sums_fit(clusters@[k as int], block@));
    let id = clusters[k].id;
    match mined_outcome(&clusters[k], block) {
        MinedOutcome::FullyConfirmed => (
            ConfirmState::Handling {
                clusters,
                at: k,
                stage: ConfirmStage::Confirming { rest: None },
            },
            ConfirmAction::Confirm(id),
        ),
        MinedOutcome::Partial { confirmed, unconfirmed, total_fee, total_vsize } => (
            ConfirmState::Handling {
                clusters,
                at: k,
                stage: ConfirmStage::Replacing { pending: unconfirmed },
            },
            ConfirmAction::Replace { id, members: confirmed, total_vsize, total_fee },
        ),
    }
}

/// One step of the round that confirms the clusters a mined block touched. Each
/// loaded cluster is handled in turn: one whose members were all mined is
/// confirmed and marked removed; one mined in part keeps only its mined members
/// and their totals, is confirmed and marked removed, and its pending members
/// go back to cluster discovery. A failed lookup or load ends the round.
pub fn confirm_round_step(
    block: &Vec<MinedTx>,
    state: ConfirmState,
    event: ConfirmEvent,
    changes: &mut ClusterDeltaSet,
) -> (res: (ConfirmState, ConfirmAction))
    requires
        confirm_expects(block@, state, event),
        old(changes).wf(),
    ensures
        final(changes).wf(),
        confirm_marks(state, event, old(changes).model(), final(changes).model()),
        confirm_next(block@, state, event, res.0, res.1),
        res.0 matches ConfirmState::Handling { clusters, at, .. } ==> at < clusters@.len()
            && forall|k: int|
            0 <= k < clusters@.len() ==> mined_sums_fit(#[trigger] clusters@[k], block@),
{
    match state {
        ConfirmState::FindingClusters => match event {
            ConfirmEvent::ClustersFound(ids) => if ids.len() == 0 {
                (ConfirmState::Done, ConfirmAction::Finish)
            } else {
                (ConfirmState::Loading, ConfirmAction::Load(ids))
            },
            _ => (ConfirmState::Done, ConfirmAction::Finish),
        },
        ConfirmState::Loading => match event {
            ConfirmEvent::Loaded(cs) => confirm_begin(block, cs, 0),
            _ => (ConfirmState::Done, ConfirmAction::Finish),
        },
        ConfirmState::Handling { clusters, at, stage } => {
            let n: usize = clusters.len();
            assert(at < n);
            let id = clusters[at].id;
            match stage {
                ConfirmStage::Replacing { pending } => match event {
                    ConfirmEvent::Replaced => (
                        ConfirmState::Handling {
                            clusters,
                            at,
                            stage: ConfirmStage::Confirming { rest: Some(pending) },
                        },
                        ConfirmAction::Confirm(id),
                    ),
                    _ => confirm_begin(block, clusters, at + 1),
                },
                ConfirmStage::Confirming { rest } => {
                    match event {
                        ConfirmEvent::Confirmed => changes.mark_removed(id),
                        _ => {},
                    }
                    match rest {
                        Some(p) => (
                            ConfirmState::Handling { clusters, at, stage: ConfirmStage::Syncing },
                            ConfirmAction::SyncCandidates(p),
                        ),
                        None => confirm_begin(block, clusters, at + 1),
                    }
                },
                ConfirmStage::Syncing => {
                    match event {
                        ConfirmEvent::CandidatesSynced(d) => changes.merge(d),
                        _ => {},
                    }
                    confirm_begin(block, clusters, at + 1)
                },
            }
        },
        ConfirmState::Done => (ConfirmState::Done, ConfirmAction::Finish),
    }
}


/// Where the handling of one loaded cluster stands in an eviction round.
#[derive(Debug)]
pub enum EvictStage {
    /// Waiting for the cluster to be closed.
    Closing,
    /// Waiting for the store's fee and vsize totals of `remaining`, the members
    /// left after eviction.
    Totaling { remaining: Vec<String> },
    /// Waiting for the cluster's members to be replaced.
    Replacing,
}

/// Where the round that shrinks or closes clusters after evictions stands.
#[derive(Debug)]
pub enum EvictState {
    /// Waiting for the ids of the clusters holding any evicted txid.
    FindingClusters,
    /// Waiting for those clusters.
    Loading,
    /// Handling `clusters[at]`, the clusters being handled in order.
    Handling { clusters: Vec<Cluster>, at: usize, stage: EvictStage },
    /// The round is over.
    Done,
}

/// What an eviction round learned.
#[derive(Debug)]
pub enum EvictEvent {
    /// The ids of the clusters holding any evicted txid.
    ClustersFound(Vec<i64>),
    /// The clusters, as loaded.
    Loaded(Vec<Cluster>),
    /// The cluster was closed.
    Closed,
    /// The store's totals of the remaining members.
    TotalsRead { total_fee: i64, total_vsize: i64 },
    /// The cluster's row after its members were replaced.
    Replaced(Cluster),
    /// A store call failed.
    Failed,
}

/// What an eviction round does next.
#[derive(Debug, PartialEq, Eq)]
pub enum EvictAction {
    /// Look up the clusters holding any of these txids.
    FindClusters(Vec<String>),
    /// Load the clusters with these ids.
    Load(Vec<i64>),
    /// Close the clusters with these ids.
    Close(Vec<i64>),
    /// Read the store's fee and vsize totals of these txids.
    ReadTotals(Vec<String>),
    /// Give cluster `id` these members and totals.
    Replace { id: i64, members: Vec<String>, total_vsize: i64, total_fee: i64 },
    /// The round is over: publish what was marked.
    Finish,
}

/// The index of the first cluster of `cs`, from `k` on, that eviction of
/// `evicted` touches; `cs.len()` when there is none.
pub open spec fn first_touched(cs: Seq<Cluster>, evicted: Seq<Seq<char>>, k: int) -> int
    decreases cs.len() - k,
{
    if k >= cs.len() {
        cs.len() as int
    } else if eviction_spec(cs[k], evicted) is Some {
        k
    } else {
        first_touched(cs, evicted, k + 1)
    }
}

/// The clusters an eviction round passes over are those eviction leaves alone:
/// confirmed, empty, or without an evicted member. No store call is made for
/// them and neither mark.
pub proof fn passed_over_clusters_are_kept(cs: Seq<Cluster>, evicted: Seq<Seq<char>>, k: int, i: int)
    requires
        0 <= k <= i < first_touched(cs, evicted, k),
    ensures
        eviction_spec(cs[i], evicted) is None,
    decreases cs.len() - k,
{
    if i > k {
        passed_over_clusters_are_kept(cs, evicted, k + 1, i);
    }
}

/// Whether `event` is the answer `state` waits for, and a cluster being handled
/// exists.
pub open spec fn evict_expects(state: EvictState, event: EvictEvent) -> bool {
    &&& state matches EvictState::Handling { clusters, at, .. } ==> at < clusters@.len()
    &&& match (state, event) {
        (EvictState::Done, _) => false,
        (_, EvictEvent::Failed) => true,
        (EvictState::FindingClusters, EvictEvent::ClustersFound(_)) => true,
        (EvictState::Loading, EvictEvent::Loaded(_)) => true,
        (EvictState::Handling { stage: EvictStage::Closing, .. }, EvictEvent::Closed) => true,
        (
            EvictState::Handling { stage: EvictStage::Totaling { .. }, .. },
            EvictEvent::TotalsRead { .. },
        ) => true,
        (EvictState::Handling { stage: EvictStage::Replacing, .. }, EvictEvent::Replaced(_)) => true,
        _ => false,
    }
}

/// How an eviction round takes up the first cluster from `clusters[k]` on that
/// eviction touches, or ends when none is left: one left with fewer than two
/// members is closed; another has the store total its remaining members.
pub open spec fn evict_begins(
    evicted: Seq<Seq<char>>,
    clusters: Vec<Cluster>,
    k: int,
    next: EvictState,
    action: EvictAction,
) -> bool {
    let j = first_touched(clusters@, evicted, k);
    if j >= clusters@.len() {
        next is Done && action is Finish
    } else {
        let c = clusters@[j];
        match eviction_spec(c, evicted) {
            Some(None) => (next matches EvictState::Handling { clusters: cs, at, stage } && cs@
                == clusters@ && at == j && stage is Closing) && (action matches EvictAction::Close(
                ids,
            ) && ids@ == seq![c.id]),
            Some(Some(remaining)) => (next matches EvictState::Handling { clusters: cs, at, stage }
                && cs@ == clusters@ && at == j && (stage matches EvictStage::Totaling { remaining: r }
                && string_views(r@) == remaining)) && (action matches EvictAction::ReadTotals(t)
                && string_views(t@) == remaining),
            None => false,
        }
    }
}

/// Where an eviction round goes on `event`, and what it does next. After its
/// totals are read, a shrinking cluster is replaced by its remaining members with
/// those totals; any other answer, a failure included, moves on to the next
/// touched cluster.
pub open spec fn evict_next(
    evicted: Seq<Seq<char>>,
    state: EvictState,
    event: EvictEvent,
    next: EvictState,
    action: EvictAction,
) -> bool {
    match state {
        EvictState::FindingClusters => match event {
            EvictEvent::ClustersFound(ids) => if ids@.len() == 0 {
                next is Done && action is Finish
            } else {
                next is Loading && action == EvictAction::Load(ids)
            },
            _ => next is Done && action is Finish,
        },
        EvictState::Loading => match event {
            EvictEvent::Loaded(cs) => evict_begins(evicted, cs, 0, next, action),
            _ => next is Done && action is Finish,
        },
        EvictState::Handling { clusters, at, stage } => match (stage, event) {
            (EvictStage::Totaling { remaining }, EvictEvent::TotalsRead { total_fee, total_vsize }) => (
            next matches EvictState::Handling { clusters: cs, at: a, stage: st } && cs@ == clusters@
                && a == at && st is Replacing) && (action matches EvictAction::Replace {
                id,
                members,
                total_vsize: v,
                total_fee: f,
            } && id == clusters@[at as int].id && members@ == remaining@ && v == total_vsize && f
                == total_fee),
            _ => evict_begins(evicted, clusters, at + 1, next, action),
        },
        EvictState::Done => true,
    }
}

/// How an eviction step moves the delta set: a closed cluster is marked removed,
/// a replaced one upserted as the store returned it; nothing else is marked.
pub open spec fn evict_marks(
    state: EvictState,
    event: EvictEvent,
    before: DeltaModel,
    after: DeltaModel,
) -> bool {
    match event {
        EvictEvent::Closed => remove_step(
            before,
            state->Handling_clusters@[state->Handling_at as int].id,
            after,
        ),
        EvictEvent::Replaced(row) => upsert_step(before, row, after),
        _ => after == before,
    }
}

/// Where the eviction round for `evicted` starts: with nothing evicted it ends
/// at once, making no store call; otherwise it looks up the clusters holding
/// the evicted txids.
pub fn evict_start(evicted: &Vec<String>) -> (res: (EvictState, EvictAction))
    ensures
        evicted@.len() == 0 ==> res.0 is Done && res.1 is Finish,
        evicted@.len() > 0 ==> res.0 is FindingClusters && (res.1 matches EvictAction::FindClusters(
            t,
        ) && string_views(t@) == string_views(evicted@)),
{
    if evicted.len() == 0 {
        (EvictState::Done, EvictAction::Finish)
    } else {
        (EvictState::FindingClusters, EvictAction::FindClusters(copy_strings(evicted)))
    }
}

/// Takes up the first cluster from `clusters[k]` on that eviction touches, or
/// ends the round.
fn evict_begin(evicted: &Vec<String>, clusters: Vec<Cluster>, k: usize) -> (res: (
    EvictState,
    EvictAction,
))
    requires
        k <= clusters@.len(),
    ensures
        evict_begins(string_views(evicted@), clusters, k as int, res.0, res.1),
{
    let ghost ev = string_views(evicted@);
    let mut j: usize = k;
    while j < clusters.len()
        invariant
            k <= j <= clusters@.len(),
            first_touched(clusters@, ev, k as int) == first_touched(clusters@, ev, j as int),
            ev == string_views(evicted@),
        decreases clusters@.len() - j,
    {
        match eviction_action(&clusters[j], evicted) {
            EvictionAction::Keep => {
                j = j + 1;
            },
            EvictionAction::Close => {
                let id = clusters[j].id;
                let ids = vec![id];
                assert(ids@ =~= seq![id]);
                return (
                    EvictState::Handling { clusters, at: j, stage: EvictStage::Closing },
                    EvictAction::Close(ids),
                );
            },
            EvictionAction::Shrink(remaining) => {
                let totals = copy_strings(&remaining);
                return (
                    EvictState::Handling {
                        clusters,
                        at: j,
                        stage: EvictStage::Totaling { remaining },
                    },
                    EvictAction::ReadTotals(totals),
                );
            },
        }
    }
    (EvictState::Done, EvictAction::Finish)
}

/// One step of the round that handles evicted txids. Each loaded cluster that
/// eviction touches is handled in turn: one left with fewer than two members is
/// closed and marked removed; another is replaced by its remaining members with
/// the store's totals and marked upserted as the store returned it. A failure
/// skips the cluster; a failed lookup or load ends the round.
pub fn evict_round_step(
    evicted: &Vec<String>,
    state: EvictState,
    event: EvictEvent,
    changes: &mut ClusterDeltaSet,
) -> (res: (EvictState, EvictAction))
    requires
        evict_expects(state, event),
        old(changes).wf(),
    ensures
        final(changes).wf(),
        evict_marks(state, event, old(changes).model(), final(changes).model()),
        evict_next(string_views(evicted@), state, event, res.0, res.1),
        res.0 matches EvictState::Handling { clusters, at, .. } ==> at < clusters@.len(),
{
    match state {
        EvictState::FindingClusters => match event {
            EvictEvent::ClustersFound(ids) => if ids.len() == 0 {
                (EvictState::Done, EvictAction::Finish)
            } else {
                (EvictState::Loading, EvictAction::Load(ids))
            },
            _ => (EvictState::Done, EvictAction::Finish),
        },
        EvictState::Loading => match event {
            EvictEvent::Loaded(cs) => evict_begin(evicted, cs, 0),
            _ => (EvictState::Done, EvictAction::Finish),
        },
        EvictState::Handling { clusters, at, stage } => {
            let n: usize = clusters.len();
            assert(at < n);
            let id = clusters[at].id;
            match &event {
                EvictEvent::Closed => changes.mark_removed(id),
                EvictEvent::Replaced(row) => changes.mark_upserted(row),
                _ => {},
            }
            match (stage, event) {
                (
                    EvictStage::Totaling { remaining },
                    EvictEvent::TotalsRead { total_fee, total_vsize },
                ) => (
                    EvictState::Handling { clusters, at, stage: EvictStage::Replacing },
                    EvictAction::Replace { id, members: remaining, total_vsize, total_fee },
                ),
                _ => evict_begin(evicted, clusters, at + 1),
            }
        },
        EvictState::Done => (EvictState::Done, EvictAction::Finish),
    }
}


/// `earliest_index` picks what `min_by_key` on the first sighting picks: a
/// cluster seen no later than any other, and the first such.
proof fn lemma_earliest_index_is_first_minimum(s: Seq<Cluster>)
    requires
        s.len() > 0,
    ensures
        0 <= earliest_index(s) < s.len(),
        forall|j: int|
            0 <= j < s.len() ==> seen_no_later(
                s[earliest_index(s)].first_seen_at,
                #[trigger] s[j].first_seen_at,
            ),
        forall|j: int|
            0 <= j < earliest_index(s) ==> !seen_no_later(
                #[trigger] s[j].first_seen_at,
                s[earliest_index(s)].first_seen_at,
            ),
    decreases s.len(),
{
    if s.len() > 1 {
        let p = s.drop_last();
        lemma_earliest_index_is_first_minimum(p);
        assert forall|j: int| 0 <= j < p.len() implies #[trigger] s[j] == p[j] by {}
    }
}

/// Whether `a <= b` in the order of `Option` that `min_by_key` uses: `None`
/// below every `Some`, and `Some`s by their values.
pub open spec fn sighting_le(a: Option<i128>, b: Option<i128>) -> bool {
    a is None || (b is Some && a->0 <= b->0)
}

/// When an upsert round loads the stored clusters covering its group, the
/// cluster it keeps (the one it replaces, closing the others) is one seen no
/// later than any other, an unknown first sighting counting as earliest, and of
/// those the first loaded. The other loaded clusters are the ones it closes, in
/// the order loaded.
pub proof fn an_upsert_keeps_the_cluster_seen_first(
    group: ClusterGroup,
    cs: Vec<Cluster>,
    next: UpsertState,
    action: UpsertAction,
)
    requires
        cs@.len() > 0,
        upsert_next(group, UpsertState::Loading, UpsertEvent::Loaded(cs), next, action),
    ensures
        next is Replacing || next is Closing,
        ({
            let keep = if next is Replacing {
                next->Replacing_keep
            } else {
                next->Closing_keep
            };
            &&& replaces_with_group(action, keep, group) || action is Close
            &&& exists|i: int|
                0 <= i < cs@.len() && #[trigger] cs@[i].id == keep && (forall|j: int|
                    0 <= j < cs@.len() ==> sighting_le(
                        cs@[i].first_seen_at,
                        #[trigger] cs@[j].first_seen_at,
                    )) && (forall|j: int|
                    0 <= j < i ==> !sighting_le(
                        #[trigger] cs@[j].first_seen_at,
                        cs@[i].first_seen_at,
                    ))
            &&& next is Closing ==> next->Closing_closed@ == cluster_ids(cs@).filter(is_not(keep))
        }),
{
    lemma_earliest_index_is_first_minimum(cs@);
    let i = earliest_index(cs@);
    assert(cs@[i].id == cs@[earliest_index(cs@)].id);
}

/// Whether every member of `c` is among the txids of `block`.
pub open spec fn fully_mined(c: Cluster, block: Seq<MinedTx>) -> bool {
    forall|t: Seq<char>| string_views(c.txids@).contains(t) ==> mined_txids(block).contains(t)
}

/// Whether `next` and `action` take up `clusters[k]` in a confirmation round,
/// or end the round when no cluster is left: a fully mined cluster is
/// confirmed, another is first shrunk to its mined members.
pub open spec fn takes_up_cluster(
    block: Seq<MinedTx>,
    clusters: Vec<Cluster>,
    k: int,
    next: ConfirmState,
    action: ConfirmAction,
) -> bool {
    &&& k >= clusters@.len() ==> next is Done && action is Finish
    &&& 0 <= k < clusters@.len() ==> {
        &&& next is Handling
        &&& next->Handling_clusters@ == clusters@
        &&& next->Handling_at == k
        &&& fully_mined(clusters@[k], block) ==> action == ConfirmAction::Confirm(clusters@[k].id)
            && next->Handling_stage is Confirming && next->Handling_stage->rest is None
        &&& !fully_mined(clusters@[k], block) ==> shrinks_to_mined(
            block,
            clusters@[k],
            next->Handling_stage,
            action,
        )
    }
}

/// Whether `action` gives `c` the members that `block` mined, in order, with
/// the fee and vsize the block records for them, and `stage` keeps the other
/// members for discovery.
pub open spec fn shrinks_to_mined(
    block: Seq<MinedTx>,
    c: Cluster,
    stage: ConfirmStage,
    action: ConfirmAction,
) -> bool {
    let members = string_views(c.txids@);
    let mined = members.filter(|t: Seq<char>| mined_txids(block).contains(t));
    &&& action is Replace
    &&& action->Replace_id == c.id
    &&& string_views(action->Replace_members@) == mined
    &&& action->Replace_total_fee == mined_total(mined, block, true)
    &&& action->Replace_total_vsize == mined_total(mined, block, false)
    &&& stage is Replacing
    &&& string_views(stage->pending@) == members.filter(
        |t: Seq<char>| !mined_txids(block).contains(t),
    )
}

proof fn lemma_pending_empty_iff_fully_mined(c: Cluster, block: Seq<MinedTx>)
    ensures
        without(string_views(c.txids@), mined_txids(block)).len() == 0 <==> fully_mined(c, block),
{
    let members = string_views(c.txids@);
    let gone = mined_txids(block);
    let pending = without(members, gone);
    if pending.len() == 0 {
        assert forall|t: Seq<char>| members.contains(t) implies gone.contains(t) by {
            crate::text::lemma_without_contains(members, gone, t);
        }
    } else {
        let t = pending[0];
        assert(pending.contains(t));
        crate::text::lemma_without_contains(members, gone, t);
    }
}

proof fn lemma_begins_takes_up(
    block: Seq<MinedTx>,
    clusters: Vec<Cluster>,
    k: int,
    next: ConfirmState,
    action: ConfirmAction,
)
    requires
        k >= 0,
        confirm_begins(block, clusters, k, next, action),
    ensures
        takes_up_cluster(block, clusters, k, next, action),
{
    if k < clusters@.len() {
        lemma_pending_empty_iff_fully_mined(clusters@[k], block);
    }
}

/// A confirmation round takes up every loaded cluster in turn: once the
/// clusters are loaded it starts with the first, and after any answer about
/// cluster `at` (but for a replacement that succeeded, or a confirmation of a
/// cluster whose pending members then go to discovery) it moves to cluster
/// `at + 1`, finishing only when none is left.
pub proof fn a_confirmation_round_takes_up_every_cluster(
    block: Seq<MinedTx>,
    state: ConfirmState,
    event: ConfirmEvent,
    next: ConfirmState,
    action: ConfirmAction,
)
    requires
        confirm_expects(block, state, event),
        confirm_next(block, state, event, next, action),
    ensures
        state is Loading && event is Loaded ==> takes_up_cluster(
            block,
            event->Loaded_0,
            0,
            next,
            action,
        ),
        state is Handling && !(state->Handling_stage is Replacing && event is Replaced) && !(
        state->Handling_stage is Confirming && state->Handling_stage->rest is Some) ==> takes_up_cluster(
            block,
            state->Handling_clusters,
            state->Handling_at + 1,
            next,
            action,
        ),
{
    match state {
        ConfirmState::Loading => {
            if let ConfirmEvent::Loaded(cs) = event {
                lemma_begins_takes_up(block, cs, 0, next, action);
            }
        },
        ConfirmState::Handling { clusters, at, stage } => {
            if !(stage is Replacing && event is Replaced) && !(stage is Confirming
                && stage->rest is Some) {
                lemma_begins_takes_up(block, clusters, at + 1, next, action);
            }
        },
        _ => {},
    }
}

/// Whether `next` and `action` take up the first cluster from `clusters[from]`
/// on that eviction of `evicted` touches, passing over every cluster before it,
/// or end the round when there is none: a cluster left with fewer than two
/// members is closed, another has its remaining members totalled.
pub open spec fn takes_up_touched(
    evicted: Seq<Seq<char>>,
    clusters: Vec<Cluster>,
    from: int,
    next: EvictState,
    action: EvictAction,
) -> bool {
    &&& next is Done || next is Handling
    &&& next is Done ==> action is Finish && forall|i: int|
        from <= i < clusters@.len() ==> eviction_spec(#[trigger] clusters@[i], evicted) is None
    &&& next is Handling ==> {
        let a = next->Handling_at as int;
        let c = clusters@[a];
        &&& next->Handling_clusters@ == clusters@
        &&& from <= a < clusters@.len()
        &&& forall|i: int| from <= i < a ==> eviction_spec(#[trigger] clusters@[i], evicted) is None
        &&& eviction_spec(c, evicted) == Some(None::<Seq<Seq<char>>>) ==> (action is Close
            && action->Close_0@ == seq![c.id])
        &&& eviction_spec(c, evicted) is Some && eviction_spec(c, evicted)->0 is Some ==> (
        action is ReadTotals && string_views(action->ReadTotals_0@) == eviction_spec(
            c,
            evicted,
        )->0->0)
    }
}

proof fn lemma_first_touched(cs: Seq<Cluster>, evicted: Seq<Seq<char>>, k: int)
    requires
        0 <= k,
    ensures
        k <= first_touched(cs, evicted, k) <= cs.len() || (k > cs.len() && first_touched(
            cs,
            evicted,
            k,
        ) == cs.len()),
        first_touched(cs, evicted, k) < cs.len() ==> eviction_spec(
            cs[first_touched(cs, evicted, k)],
            evicted,
        ) is Some,
        forall|i: int|
            k <= i < first_touched(cs, evicted, k) ==> eviction_spec(#[trigger] cs[i], evicted) is None,
    decreases cs.len() - k,
{
    if k < cs.len() && eviction_spec(cs[k], evicted) is None {
        lemma_first_touched(cs, evicted, k + 1);
    }
}

proof fn lemma_evict_begins_takes_up(
    evicted: Seq<Seq<char>>,
    clusters: Vec<Cluster>,
    k: int,
    next: EvictState,
    action: EvictAction,
)
    requires
        k >= 0,
        evict_begins(evicted, clusters, k, next, action),
    ensures
        takes_up_touched(evicted, clusters, k, next, action),
{
    lemma_first_touched(clusters@, evicted, k);
}

/// An eviction round handles every loaded cluster that eviction touches, in
/// turn: once the clusters are loaded it takes up the first touched one, and
/// after any answer about cluster `at` (but for the totals of a shrinking one)
/// it moves on to the next touched cluster after it, passing over the others
/// without a store call, and finishes only when none is left.
pub proof fn an_eviction_round_handles_every_touched_cluster(
    evicted: Seq<Seq<char>>,
    state: EvictState,
    event: EvictEvent,
    next: EvictState,
    action: EvictAction,
)
    requires
        evict_expects(state, event),
        evict_next(evicted, state, event, next, action),
    ensures
        state is Loading && event is Loaded ==> takes_up_touched(
            evicted,
            event->Loaded_0,
            0,
            next,
            action,
        ),
        state is Handling && !(state->Handling_stage is Totaling && event is TotalsRead)
            ==> takes_up_touched(
            evicted,
            state->Handling_clusters,
            state->Handling_at + 1,
            next,
            action,
        ),
{
    match state {
        EvictState::Loading => {
            if let EvictEvent::Loaded(cs) = event {
                lemma_evict_begins_takes_up(evicted, cs, 0, next, action);
            }
        },
        EvictState::Handling { clusters, at, stage } => {
            if !(stage is Totaling && event is TotalsRead) {
                lemma_evict_begins_takes_up(evicted, clusters, at + 1, next, action);
            }
        },
        _ => {},
    }
}


/// Within a confirmation round, a cluster mined in part is confirmed right after
/// it was shrunk, keeping its pending members; after its confirmation, whether
/// it succeeded or not, those members go to cluster discovery. A lookup that
/// finds no cluster ends the round; one that finds some loads exactly those.
pub proof fn a_shrunk_cluster_is_confirmed_then_its_rest_handed_on(
    block: Seq<MinedTx>,
    state: ConfirmState,
    event: ConfirmEvent,
    next: ConfirmState,
    action: ConfirmAction,
)
    requires
        confirm_expects(block, state, event),
        confirm_next(block, state, event, next, action),
    ensures
        state is FindingClusters && event is ClustersFound ==> if event->ClustersFound_0@.len()
            == 0 {
            next is Done && action is Finish
        } else {
            next is Loading && action is Load && action->Load_0@ == event->ClustersFound_0@
        },
        state is FindingClusters && event is Failed ==> next is Done && action is Finish,
        state is Loading && event is Failed ==> next is Done && action is Finish,
        state is Handling && state->Handling_stage is Replacing && event is Replaced ==> {
            &&& next is Handling
            &&& next->Handling_clusters@ == state->Handling_clusters@
            &&& next->Handling_at == state->Handling_at
            &&& next->Handling_stage is Confirming && next->Handling_stage->rest is Some
            &&& next->Handling_stage->rest->0@ == state->Handling_stage->pending@
            &&& action == ConfirmAction::Confirm(
                state->Handling_clusters@[state->Handling_at as int].id,
            )
        },
        state is Handling && state->Handling_stage is Confirming && state->Handling_stage->rest
            is Some ==> {
            &&& next is Handling
            &&& next->Handling_clusters@ == state->Handling_clusters@
            &&& next->Handling_at == state->Handling_at
            &&& next->Handling_stage is Syncing
            &&& action is SyncCandidates
            &&& action->SyncCandidates_0@ == state->Handling_stage->rest->0@
        },
{
}

/// A confirmation step marks the cluster it handles removed when, and only when,
/// the store confirmed it, folds in what discovery touched, and otherwise
/// leaves the delta set as it was.
pub proof fn a_cluster_is_marked_removed_once_confirmed(
    state: ConfirmState,
    event: ConfirmEvent,
    before: DeltaModel,
    after: DeltaModel,
)
    requires
        state is Handling ==> state->Handling_at < state->Handling_clusters@.len(),
        confirm_marks(state, event, before, after),
    ensures
        event is Confirmed ==> {
            let id = state->Handling_clusters@[state->Handling_at as int].id;
            &&& after.1.contains(id)
            &&& !after.0.contains_key(id)
            &&& forall|x: i64| x != id ==> (after.1.contains(x) == before.1.contains(x))
            &&& forall|x: i64|
                x != id ==> (after.0.contains_key(x) == before.0.contains_key(x) && after.0[x]
                    == before.0[x])
        },
        !(event is Confirmed) && !(event is CandidatesSynced) ==> after == before,
{
}

/// Within an eviction round, a shrinking cluster is replaced by exactly its
/// remaining members with the totals the store read for them. A lookup that
/// finds no cluster ends the round; one that finds some loads exactly those.
pub proof fn a_shrinking_cluster_takes_its_remaining_members_and_their_totals(
    evicted: Seq<Seq<char>>,
    state: EvictState,
    event: EvictEvent,
    next: EvictState,
    action: EvictAction,
)
    requires
        evict_expects(state, event),
        evict_next(evicted, state, event, next, action),
    ensures
        state is FindingClusters && event is ClustersFound ==> if event->ClustersFound_0@.len()
            == 0 {
            next is Done && action is Finish
        } else {
            next is Loading && action is Load && action->Load_0@ == event->ClustersFound_0@
        },
        (state is FindingClusters || state is Loading) && event is Failed ==> next is Done
            && action is Finish,
        state is Handling && state->Handling_stage is Totaling && event is TotalsRead ==> {
            &&& next is Handling
            &&& next->Handling_clusters@ == state->Handling_clusters@
            &&& next->Handling_at == state->Handling_at
            &&& next->Handling_stage is Replacing
            &&& action is Replace
            &&& action->Replace_id == state->Handling_clusters@[state->Handling_at as int].id
            &&& action->Replace_members@ == state->Handling_stage->remaining@
            &&& action->Replace_total_fee == event->total_fee
            &&& action->Replace_total_vsize == event->total_vsize
        },
{
}

/// An eviction step marks the cluster it handles removed once the store closed
/// it, marks the row the store returned upserted once it replaced the members,
/// and otherwise leaves the delta set as it was.
pub proof fn an_evicted_cluster_is_marked_once_written(
    state: EvictState,
    event: EvictEvent,
    before: DeltaModel,
    after: DeltaModel,
)
    requires
        evict_expects(state, event),
        evict_marks(state, event, before, after),
    ensures
        event is Closed ==> {
            let id = state->Handling_clusters@[state->Handling_at as int].id;
            &&& after.1 == before.1.insert(id)
            &&& after.0 == before.0.remove(id)
        },
        event is Replaced ==> {
            let row = event->Replaced_0;
            &&& after.0.contains_key(row.id)
            &&& describes(after.0[row.id], row)
            &&& !after.1.contains(row.id)
        },
        !(event is Closed) && !(event is Replaced) ==> after == before,
{
}

/// An upsert round inserts a group that no stored cluster holds, exactly as the
/// node reported it, and loads exactly the stored clusters that hold it
/// otherwise; once the merged clusters are closed it gives the kept one the
/// group's members and totals, and a write it learns of ends the round.
pub proof fn an_upsert_inserts_unknown_groups_and_replaces_known_ones(
    group: ClusterGroup,
    state: UpsertState,
    event: UpsertEvent,
    next: UpsertState,
    action: UpsertAction,
)
    requires
        upsert_expects(state, event),
        upsert_next(group, state, event, next, action),
    ensures
        event is ExistingFound && event->ExistingFound_0@.len() == 0 ==> {
            &&& next is Inserting
            &&& action is Insert
            &&& string_views(action->Insert_txids@) == string_views(group.txids@)
            &&& action->Insert_total_vsize == group.total_vsize
            &&& action->Insert_total_fee == group.total_fee
        },
        event is ExistingFound && event->ExistingFound_0@.len() > 0 ==> next is Loading
            && action is Load && action->Load_0@ == event->ExistingFound_0@,
        event is Closed ==> {
            &&& next is Replacing
            &&& next->Replacing_keep == state->Closing_keep
            &&& action is Replace
            &&& action->Replace_id == state->Closing_keep
            &&& string_views(action->Replace_members@) == string_views(group.txids@)
            &&& action->Replace_total_vsize == group.total_vsize
            &&& action->Replace_total_fee == group.total_fee
        },
        event is Inserted || event is Replaced || event is Failed ==> next is Done
            && action is Finish,
        event is Loaded && event->Loaded_0@.len() == 0 ==> next is Done && action is Finish,
{
}

/// An upsert step marks the row the store returned upserted once it inserted
/// or replaced it, marks the merged clusters removed once the store closed
/// them, and otherwise leaves the delta set as it was.
pub proof fn an_upserted_cluster_is_marked_once_written(
    state: UpsertState,
    event: UpsertEvent,
    before: DeltaModel,
    after: DeltaModel,
)
    requires
        upsert_expects(state, event),
        upsert_marks(state, event, before, after),
    ensures
        event is Inserted || event is Replaced ==> {
            let row = if event is Inserted {
                event->Inserted_0
            } else {
                event->Replaced_0
            };
            &&& after.0.contains_key(row.id)
            &&& describes(after.0[row.id], row)
            &&& !after.1.contains(row.id)
        },
        event is Closed ==> {
            let closed = state->Closing_closed@;
            &&& forall|id: i64| #[trigger] closed.contains(id) ==> after.1.contains(id)
                && !after.0.contains_key(id)
            &&& forall|id: i64|
                !closed.contains(id) ==> (after.1.contains(id) == before.1.contains(id)
                    && after.0.contains_key(id) == before.0.contains_key(id))
        },
        !(event is Inserted) && !(event is Replaced) && !(event is Closed) ==> after == before,
{
    if event is Closed {
        let closed = state->Closing_closed@;
        assert forall|id: i64| #[trigger] closed.contains(id) implies closed.to_set().contains(id) by {}
        assert forall|id: i64| !closed.contains(id) implies !closed.to_set().contains(id) by {}
    }
}

} // verus!
