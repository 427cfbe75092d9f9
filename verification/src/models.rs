//! The rows the service stores, as the library sees them. Times are unix
//! nanoseconds.
use crate::clock::now_unix_nanos;
use crate::order::{lemma_insert_keeps_sorted, lex_lt, sorted, string_lt};
use crate::text::{copy_strings, string_views};
use vstd::prelude::*;

verus! {

/// Whether a txid entered or left the mempool.
#[derive(Debug, Clone, Copy, PartialEq, Eq)]
pub enum DeltaDirection {
    Add,
    Remove,
}

/// Why a txid entered or left the mempool.
#[derive(Debug, Clone, Copy, PartialEq, Eq)]
pub enum DeltaReason {
    /// New tx entered the mempool.
    AddMempool,
    /// Tx that was in our mempool, confirmed in a mined block.
    RemoveConfirmed,
    /// Tx that was in our mempool, left without a known confirmation.
    RemoveEvicted,
}

/// The direction of a delta reason.
pub open spec fn direction_of(reason: DeltaReason) -> DeltaDirection {
    match reason {
        DeltaReason::AddMempool => DeltaDirection::Add,
        _ => DeltaDirection::Remove,
    }
}

/// Every delta reason, in declaration order.
pub open spec fn all_reasons() -> Seq<DeltaReason> {
    seq![DeltaReason::AddMempool, DeltaReason::RemoveConfirmed, DeltaReason::RemoveEvicted]
}

impl DeltaReason {
    /// Whether this reason adds to or removes from the mempool.
    pub fn direction(self) -> (d: DeltaDirection)
        ensures
            d == direction_of(self),
    {
        match self {
            DeltaReason::AddMempool => DeltaDirection::Add,
            DeltaReason::RemoveConfirmed | DeltaReason::RemoveEvicted => DeltaDirection::Remove,
        }
    }

    /// Every reason, in declaration order.
    pub fn all() -> (reasons: Vec<DeltaReason>)
        ensures
            reasons@ == all_reasons(),
    {
        vec![DeltaReason::AddMempool, DeltaReason::RemoveConfirmed, DeltaReason::RemoveEvicted]
    }

    /// The reasons with direction `direction`, in declaration order.
    pub fn with_direction(direction: DeltaDirection) -> (reasons: Vec<DeltaReason>)
        ensures
            reasons@ == all_reasons().filter(|r: DeltaReason| direction_of(r) == direction),
    {
        let all = DeltaReason::all();
        let mut reasons: Vec<DeltaReason> = Vec::new();
        let mut i: usize = 0;
        while i < all.len()
            invariant
                i <= all@.len(),
                all@ == all_reasons(),
                reasons@ == all@.take(i as int).filter(
                    |r: DeltaReason| direction_of(r) == direction,
                ),
            decreases all@.len() - i,
        {
            assert(all@.take(i + 1).drop_last() =~= all@.take(i as int));
            reveal_with_fuel(Seq::filter, 1);
            let r = all[i];
            let d = r.direction();
            let same = match (d, direction) {
                (DeltaDirection::Add, DeltaDirection::Add) => true,
                (DeltaDirection::Remove, DeltaDirection::Remove) => true,
                _ => false,
            };
            if same {
                reasons.push(r);
            }
            i = i + 1;
        }
        assert(all@.take(all@.len() as int) =~= all@);
        reasons
    }
}

/// A cluster's lifecycle state.
#[derive(Debug, Clone, Copy, PartialEq, Eq)]
pub enum ClusterStatus {
    /// In the mempool.
    Active,
    /// Confirmed in a mined block.
    Confirmed,
    /// Every member of the cluster has left the mempool without being confirmed.
    Evicted,
    /// This cluster has been merged into another cluster.
    Merged,
}

impl ClusterStatus {
    /// Every status, in declaration order.
    pub fn all() -> (statuses: Vec<ClusterStatus>)
        ensures
            statuses@ == seq![
                ClusterStatus::Active,
                ClusterStatus::Confirmed,
                ClusterStatus::Evicted,
                ClusterStatus::Merged,
            ],
    {
        vec![
            ClusterStatus::Active,
            ClusterStatus::Confirmed,
            ClusterStatus::Evicted,
            ClusterStatus::Merged,
        ]
    }
}

/// Kinds of system lifecycle events.
#[derive(Debug, Clone, Copy, PartialEq, Eq)]
pub enum SystemEventKind {
    ServerStarted,
    ServerStopped,
    BootstrapStarted,
    BootstrapCompleted,
    NodeConnected,
    NodeDisconnected,
    NodeVersionChanged,
}

impl SystemEventKind {
    /// Every kind, in declaration order.
    pub fn all() -> (kinds: Vec<SystemEventKind>)
        ensures
            kinds@ == seq![
                SystemEventKind::ServerStarted,
                SystemEventKind::ServerStopped,
                SystemEventKind::BootstrapStarted,
                SystemEventKind::BootstrapCompleted,
                SystemEventKind::NodeConnected,
                SystemEventKind::NodeDisconnected,
                SystemEventKind::NodeVersionChanged,
            ],
    {
        vec![
            SystemEventKind::ServerStarted,
            SystemEventKind::ServerStopped,
            SystemEventKind::BootstrapStarted,
            SystemEventKind::BootstrapCompleted,
            SystemEventKind::NodeConnected,
            SystemEventKind::NodeDisconnected,
            SystemEventKind::NodeVersionChanged,
        ]
    }
}

/// A transaction row to insert.
#[derive(Debug)]
pub struct NewTransaction {
    pub txid: String,
    pub fee: Option<i64>,
    pub vsize: i64,
    pub first_seen_at: i128,
    pub confirmed_at: Option<i128>,
    pub cluster_id: Option<i64>,
    pub confirmed_at_block: Option<String>,
    pub hollow: bool,
    /// Parent txids spent by this tx. `None` means never learned; `Some` of an
    /// empty list means it spends nothing (coinbase).
    pub input_txids: Option<Vec<String>>,
}

/// A mempool entry as the node lists it.
#[derive(Debug)]
pub struct MempoolEntry {
    pub txid: String,
    pub fee_in_sats: u64,
    pub vsize: u32,
}

/// A transaction fetched from the node.
#[derive(Debug)]
pub struct RawTransaction {
    pub txid: String,
    pub vsize: u32,
    pub input_txids: Vec<String>,
}

/// Whether `row` is the row for the mempool entry `e`, first seen `now`.
pub open spec fn entry_row(row: NewTransaction, e: MempoolEntry, now: i128) -> bool {
    &&& row.txid@ == e.txid@
    &&& row.fee == Some(e.fee_in_sats as i64)
    &&& row.vsize == e.vsize as i64
    &&& row.first_seen_at == now
    &&& row.confirmed_at is None
    &&& row.cluster_id is None
    &&& row.confirmed_at_block is None
    &&& !row.hollow
    &&& row.input_txids is None
}

/// Whether `row` is the row for the transaction `m` fetched from the node, first
/// seen `now`: its parents come from its inputs, its fee is not known.
pub open spec fn raw_row(row: NewTransaction, m: RawTransaction, now: i128) -> bool {
    &&& row.txid@ == m.txid@
    &&& row.fee is None
    &&& row.vsize == m.vsize as i64
    &&& row.first_seen_at == now
    &&& row.confirmed_at is None
    &&& row.cluster_id is None
    &&& row.confirmed_at_block is None
    &&& !row.hollow
    &&& row.input_txids matches Some(inputs) && string_views(inputs@) == string_views(
        m.input_txids@,
    )
}

/// Whether a row still lacks what the node could tell us.
pub open spec fn needs_backfill_spec(tx: NewTransaction) -> bool {
    tx.input_txids is None || tx.vsize == 0
}

impl NewTransaction {
    /// Placeholder for a txid we know is in the mempool but could not retrieve,
    /// first seen `now`.
    pub fn hollow_at(txid: &str, now: i128) -> (tx: Self)
        ensures
            tx.txid@ == txid@,
            tx.fee is None,
            tx.vsize == 0,
            tx.first_seen_at == now,
            tx.confirmed_at is None,
            tx.cluster_id is None,
            tx.confirmed_at_block is None,
            tx.hollow,
            tx.input_txids is None,
    {
        NewTransaction {
            txid: txid.to_string(),
            fee: None,
            vsize: 0,
            first_seen_at: now,
            confirmed_at: None,
            cluster_id: None,
            confirmed_at_block: None,
            hollow: true,
            input_txids: None,
        }
    }

    /// Placeholder for a txid we know is in the mempool but could not retrieve,
    /// first seen now by our clock.
    pub fn hollow(txid: &str) -> (tx: Self)
        ensures
            tx.txid@ == txid@,
            tx.fee is None,
            tx.vsize == 0,
            tx.confirmed_at is None,
            tx.cluster_id is None,
            tx.confirmed_at_block is None,
            tx.hollow,
            tx.input_txids is None,
    {
        NewTransaction::hollow_at(txid, now_unix_nanos())
    }

    /// Whether the node still has something to tell us about this row.
    pub fn needs_backfill(&self) -> (needs: bool)
        ensures
            needs == needs_backfill_spec(*self),
    {
        self.input_txids.is_none() || self.vsize == 0
    }

    /// The row for a mempool entry, first seen `now` by our clock (the entry's
    /// own time is the node's, and would backdate a bootstrap). The fee is stored
    /// as the signed column holds it: a fee past `i64::MAX` wraps.
    pub fn from_mempool_entry_at(e: &MempoolEntry, now: i128) -> (tx: Self)
        ensures
            entry_row(tx, *e, now),
    {
        NewTransaction {
            txid: e.txid.clone(),
            fee: Some(e.fee_in_sats as i64),
            vsize: e.vsize as i64,
            first_seen_at: now,
            confirmed_at: None,
            cluster_id: None,
            confirmed_at_block: None,
            hollow: false,
            input_txids: None,
        }
    }

    /// The row for a transaction fetched from the node, first seen `now`; its
    /// parents come from its inputs.
    pub fn from_raw_transaction_at(m: &RawTransaction, now: i128) -> (tx: Self)
        ensures
            raw_row(tx, *m, now),
    {
        NewTransaction {
            txid: m.txid.clone(),
            fee: None,
            vsize: m.vsize as i64,
            first_seen_at: now,
            confirmed_at: None,
            cluster_id: None,
            confirmed_at_block: None,
            hollow: false,
            input_txids: Some(copy_strings(&m.input_txids)),
        }
    }

    /// The row for a mempool entry, first seen now by our clock.
    pub fn from_mempool_entry(e: &MempoolEntry) -> (tx: Self)
        ensures
            entry_row(tx, *e, tx.first_seen_at),
    {
        NewTransaction::from_mempool_entry_at(e, now_unix_nanos())
    }

    /// The row for a transaction fetched from the node, first seen now by our
    /// clock.
    pub fn from_raw_transaction(m: &RawTransaction) -> (tx: Self)
        ensures
            raw_row(tx, *m, tx.first_seen_at),
    {
        NewTransaction::from_raw_transaction_at(m, now_unix_nanos())
    }
}

/// The plain values of a row: its txid, fee, vsize, times, cluster, block,
/// hollow flag and parents, strings by their characters.
pub open spec fn row_view(r: NewTransaction) -> (
    Seq<char>,
    Option<i64>,
    i64,
    i128,
    Option<i128>,
    Option<i64>,
    Option<Seq<char>>,
    bool,
    Option<Seq<Seq<char>>>,
) {
    (
        r.txid@,
        r.fee,
        r.vsize,
        r.first_seen_at,
        r.confirmed_at,
        r.cluster_id,
        match r.confirmed_at_block {
            Some(b) => Some(b@),
            None => None,
        },
        r.hollow,
        match r.input_txids {
            Some(v) => Some(string_views(v@)),
            None => None,
        },
    )
}

/// The plain values of a list of rows, in order.
pub open spec fn row_views(rows: Seq<NewTransaction>) -> Seq<
    (
        Seq<char>,
        Option<i64>,
        i64,
        i128,
        Option<i128>,
        Option<i64>,
        Option<Seq<char>>,
        bool,
        Option<Seq<Seq<char>>>,
    ),
> {
    rows.map_values(|r: NewTransaction| row_view(r))
}

/// The txids of a list of rows, in order.
pub open spec fn row_txids(rows: Seq<NewTransaction>) -> Seq<Seq<char>> {
    rows.map_values(|r: NewTransaction| r.txid@)
}

impl NewTransaction {
    /// A copy of this row.
    pub fn copied(&self) -> (r: Self)
        ensures
            row_view(r) == row_view(*self),
    {
        let confirmed_at_block = match &self.confirmed_at_block {
            Some(b) => Some(b.clone()),
            None => None,
        };
        let input_txids = match &self.input_txids {
            Some(v) => Some(copy_strings(v)),
            None => None,
        };
        NewTransaction {
            txid: self.txid.clone(),
            fee: self.fee,
            vsize: self.vsize,
            first_seen_at: self.first_seen_at,
            confirmed_at: self.confirmed_at,
            cluster_id: self.cluster_id,
            confirmed_at_block,
            hollow: self.hollow,
            input_txids,
        }
    }

    /// The rows of `txs` ordered by txid, each row as often as in `txs`.
    /// Writing rows in one order keeps concurrent upserts from locking them in
    /// opposite orders.
    pub fn sorted_by_txid(txs: &Vec<NewTransaction>) -> (out: Vec<NewTransaction>)
        ensures
            sorted(row_txids(out@)),
            row_views(out@).to_multiset() =~= row_views(txs@).to_multiset(),
    {
        let mut out: Vec<NewTransaction> = Vec::new();
        let mut i: usize = 0;
        assert(row_views(out@) =~= row_views(txs@.take(0)));
        while i < txs.len()
            invariant
                i <= txs@.len(),
                sorted(row_txids(out@)),
                row_views(out@).to_multiset() =~= row_views(txs@.take(i as int)).to_multiset(),
            decreases txs@.len() - i,
        {
            let x = txs[i].copied();
            let mut p: usize = 0;
            while p < out.len() && !string_lt(&x.txid, &out[p].txid)
                invariant
                    p <= out@.len(),
                    forall|q: int| 0 <= q < p ==> !lex_lt(x.txid@, #[trigger] out@[q].txid@),
                decreases out@.len() - p,
            {
                p = p + 1;
            }
            let ghost before = out@;
            let ghost xv = row_view(x);
            proof {
                broadcast use vstd::seq_lib::group_to_multiset_ensures;

                let views = row_views(before);
                assert(views.insert(p as int, xv) =~= row_views(before.insert(p as int, x)));
                crate::order::lemma_insert_to_multiset(views, p as int, xv);
                assert(row_views(txs@.take(i + 1)) =~= row_views(txs@.take(i as int)).push(xv));
                assert(row_txids(before.insert(p as int, x)) =~= row_txids(before).insert(
                    p as int,
                    x.txid@,
                ));
                lemma_insert_keeps_sorted(row_txids(before), p as int, x.txid@);
            }
            out.insert(p, x);
            i = i + 1;
        }
        assert(txs@.take(txs@.len() as int) =~= txs@);
        out
    }
}

} // verus!
