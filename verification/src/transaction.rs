//! Transaction lookup: which requested txids are stored, in request order, and
//! which are missing.
use crate::text::{copy_strings, string_views};
use vstd::prelude::*;

verus! {

/// A stored transaction row. Times are unix nanoseconds.
#[derive(Debug)]
pub struct Transaction {
    pub txid: String,
    pub fee: Option<i64>,
    pub vsize: i64,
    pub first_seen_at: i128,
    pub confirmed_at: Option<i128>,
    pub cluster_id: Option<i64>,
    pub confirmed_at_block: Option<String>,
    pub hollow: bool,
    pub input_txids: Option<Vec<String>>,
}

/// A transaction as clients see it.
#[derive(Debug)]
pub struct TransactionRef {
    pub txid: String,
    pub fee: Option<i64>,
    pub vsize: i64,
    pub first_seen_at: i128,
    pub cluster_id: Option<i64>,
    pub hollow: bool,
    pub input_txids: Option<Vec<String>>,
}

/// The answer to a lookup: rows found, in request order, and txids not found.
#[derive(Debug)]
pub struct TransactionLookup {
    pub found: Vec<TransactionRef>,
    pub missing: Vec<String>,
}

/// Whether `r` shows the row `t`, the three states of `input_txids` (unknown,
/// none, some) kept apart.
pub open spec fn shows(r: TransactionRef, t: Transaction) -> bool {
    &&& r.txid@ == t.txid@
    &&& r.fee == t.fee
    &&& r.vsize == t.vsize
    &&& r.first_seen_at == t.first_seen_at
    &&& r.cluster_id == t.cluster_id
    &&& r.hollow == t.hollow
    &&& match (r.input_txids, t.input_txids) {
        (None, None) => true,
        (Some(a), Some(b)) => string_views(a@) == string_views(b@),
        _ => false,
    }
}

/// The index of the last row with txid `t`: the one a map built from the rows in
/// order keeps.
pub open spec fn last_row_with(rows: Seq<Transaction>, t: Seq<char>) -> Option<int>
    decreases rows.len(),
{
    if rows.len() == 0 {
        None
    } else if rows.last().txid@ == t {
        Some(rows.len() - 1)
    } else {
        last_row_with(rows.drop_last(), t)
    }
}

/// Which row, if any, answers request `k`: the last row with its txid, unless an
/// earlier request for the same txid already took it.
pub open spec fn answer(requested: Seq<Seq<char>>, rows: Seq<Transaction>, k: int) -> Option<int> {
    if requested.take(k).contains(requested[k]) {
        None
    } else {
        last_row_with(rows, requested[k])
    }
}

/// The rows that answer the first `n` requests, in request order.
pub open spec fn found_rows(requested: Seq<Seq<char>>, rows: Seq<Transaction>, n: int) -> Seq<int>
    decreases n,
{
    if n <= 0 {
        Seq::empty()
    } else {
        let prev = found_rows(requested, rows, n - 1);
        match answer(requested, rows, n - 1) {
            Some(i) => prev.push(i),
            None => prev,
        }
    }
}

/// The first `n` requests that no row answers, in request order.
pub open spec fn missing_txids(requested: Seq<Seq<char>>, rows: Seq<Transaction>, n: int) -> Seq<
    Seq<char>,
>
    decreases n,
{
    if n <= 0 {
        Seq::empty()
    } else {
        let prev = missing_txids(requested, rows, n - 1);
        match answer(requested, rows, n - 1) {
            Some(_) => prev,
            None => prev.push(requested[n - 1]),
        }
    }
}

/// Whether `found` shows, one for one, the rows of `rows` at `idxs`.
pub open spec fn shows_rows(found: Seq<TransactionRef>, rows: Seq<Transaction>, idxs: Seq<int>) -> bool {
    &&& found.len() == idxs.len()
    &&& forall|i: int| 0 <= i < idxs.len() ==> 0 <= #[trigger] idxs[i] < rows.len()
    &&& forall|i: int| 0 <= i < idxs.len() ==> shows(#[trigger] found[i], rows[idxs[i]])
}

proof fn lemma_shows_rows_push(
    found: Seq<TransactionRef>,
    rows: Seq<Transaction>,
    idxs: Seq<int>,
    r: TransactionRef,
    i: int,
)
    requires
        shows_rows(found, rows, idxs),
        0 <= i < rows.len(),
        shows(r, rows[i]),
    ensures
        shows_rows(found.push(r), rows, idxs.push(i)),
{
    let found2 = found.push(r);
    let idxs2 = idxs.push(i);
    assert forall|x: int| 0 <= x < idxs2.len() implies shows(#[trigger] found2[x], rows[idxs2[x]]) by {
        if x < idxs.len() {
            assert(found2[x] == found[x]);
            assert(idxs2[x] == idxs[x]);
        }
    }
}

proof fn lemma_last_row_with_bounds(rows: Seq<Transaction>, t: Seq<char>)
    ensures
        last_row_with(rows, t) matches Some(i) ==> 0 <= i < rows.len(),
    decreases rows.len(),
{
    if rows.len() > 0 {
        lemma_last_row_with_bounds(rows.drop_last(), t);
    }
}

impl Transaction {
    /// The client-facing view of this row.
    pub fn to_ref(&self) -> (r: TransactionRef)
        ensures
            shows(r, *self),
    {
        let input_txids = match &self.input_txids {
            Some(inputs) => Some(copy_strings(inputs)),
            None => None,
        };
        TransactionRef {
            txid: self.txid.clone(),
            fee: self.fee,
            vsize: self.vsize,
            first_seen_at: self.first_seen_at,
            cluster_id: self.cluster_id,
            hollow: self.hollow,
            input_txids,
        }
    }
}

/// The index of the last row with txid `t`.
fn find_row(rows: &Vec<Transaction>, t: &String) -> (idx: Option<usize>)
    ensures
        last_row_with(rows@, t@) == match idx {
            Some(p) => Some(p as int),
            None => None,
        },
{
    let mut i = rows.len();
    assert(rows@.take(i as int) =~= rows@);
    while i > 0
        invariant
            i <= rows@.len(),
            last_row_with(rows@, t@) == last_row_with(rows@.take(i as int), t@),
        decreases i,
    {
        assert(rows@.take(i as int).drop_last() =~= rows@.take(i - 1));
        if rows[i - 1].txid == *t {
            return Some(i - 1);
        }
        i = i - 1;
    }
    None
}

/// Splits `txids` into the stored rows `rows` that answer them, in request
/// order, and the txids no row answers. A repeated request is answered once.
pub fn lookup(txids: &Vec<String>, rows: &Vec<Transaction>) -> (res: TransactionLookup)
    ensures
        ({
            let requested = string_views(txids@);
            &&& shows_rows(res.found@, rows@, found_rows(requested, rows@, requested.len() as int))
            &&& string_views(res.missing@) == missing_txids(requested, rows@, requested.len() as int)
        }),
{
    let ghost requested = string_views(txids@);
    let mut found: Vec<TransactionRef> = Vec::new();
    let mut missing: Vec<String> = Vec::new();
    let mut k: usize = 0;
    while k < txids.len()
        invariant
            k <= txids@.len(),
            requested == string_views(txids@),
            shows_rows(found@, rows@, found_rows(requested, rows@, k as int)),
            string_views(missing@) == missing_txids(requested, rows@, k as int),
        decreases txids@.len() - k,
    {
        let t = &txids[k];
        let mut repeated = false;
        let mut j: usize = 0;
        while j < k
            invariant
                j <= k < txids@.len(),
                requested == string_views(txids@),
                repeated <==> exists|i: int| 0 <= i < j && #[trigger] requested[i] == t@,
            decreases k - j,
        {
            assert(requested[j as int] == txids@[j as int]@);
            if txids[j] == *t {
                repeated = true;
            }
            j = j + 1;
        }
        assert(repeated <==> requested.take(k as int).contains(requested[k as int])) by {
            if repeated {
                let i = choose|i: int| 0 <= i < k && #[trigger] requested[i] == t@;
                assert(requested.take(k as int)[i] == requested[k as int]);
            }
            if requested.take(k as int).contains(requested[k as int]) {
                let i = choose|i: int|
                    0 <= i < k && #[trigger] requested.take(k as int)[i] == requested[k as int];
                assert(requested[i] == t@);
            }
        }
        let ghost prev_found = found_rows(requested, rows@, k as int);
        let ghost prev_found_vec = found@;
        let hit = if repeated {
            None
        } else {
            find_row(rows, t)
        };
        proof {
            lemma_last_row_with_bounds(rows@, t@);
        }
        match hit {
            Some(i) => {
                let r = rows[i].to_ref();
                found.push(r);
                assert(found@ == prev_found_vec.push(r));
                assert(found_rows(requested, rows@, k + 1) == prev_found.push(i as int));
                proof {
                    lemma_shows_rows_push(prev_found_vec, rows@, prev_found, r, i as int);
                }
            },
            None => {
                assert(found_rows(requested, rows@, k + 1) == prev_found);
                let ghost before = missing@;
                missing.push(t.clone());
                assert(string_views(missing@) =~= string_views(before).push(t@));
            },
        }
        k = k + 1;
    }
    assert(requested.len() == k);
    TransactionLookup { found, missing }
}

/// The sums of the stored fees, an unknown fee counting as zero, and of the
/// vsizes of `rows` (fee, vsize pairs).
pub open spec fn fee_vsize_sums(rows: Seq<(Option<i64>, i64)>) -> (int, int)
    decreases rows.len(),
{
    if rows.len() == 0 {
        (0, 0)
    } else {
        let (fee, vsize) = fee_vsize_sums(rows.drop_last());
        let (f, v) = rows.last();
        (
            fee + match f {
                Some(x) => x as int,
                None => 0,
            },
            vsize + v,
        )
    }
}

/// Whether every running sum of `fee_vsize_sums` over `rows` fits in an `i64`.
pub open spec fn fee_vsize_sums_fit(rows: Seq<(Option<i64>, i64)>) -> bool {
    forall|k: int|
        0 <= k <= rows.len() ==> {
            let (fee, vsize) = #[trigger] fee_vsize_sums(rows.take(k));
            i64::MIN <= fee <= i64::MAX && i64::MIN <= vsize <= i64::MAX
        }
}

/// Sums the stored fees (an unknown fee as zero) and vsizes of a set of rows,
/// given as (fee, vsize) pairs.
pub fn fee_vsize_totals(rows: &Vec<(Option<i64>, i64)>) -> (totals: (i64, i64))
    requires
        fee_vsize_sums_fit(rows@),
    ensures
        totals.0 == fee_vsize_sums(rows@).0,
        totals.1 == fee_vsize_sums(rows@).1,
{
    let mut fee: i64 = 0;
    let mut vsize: i64 = 0;
    let mut i: usize = 0;
    while i < rows.len()
        invariant
            i <= rows@.len(),
            fee_vsize_sums_fit(rows@),
            fee == fee_vsize_sums(rows@.take(i as int)).0,
            vsize == fee_vsize_sums(rows@.take(i as int)).1,
        decreases rows@.len() - i,
    {
        assert(rows@.take(i + 1).drop_last() =~= rows@.take(i as int));
        let ghost next = fee_vsize_sums(rows@.take(i + 1));
        assert(i64::MIN <= next.0 <= i64::MAX && i64::MIN <= next.1 <= i64::MAX);
        let (f, v) = rows[i];
        let add = match f {
            Some(x) => x,
            None => 0,
        };
        fee = fee + add;
        vsize = vsize + v;
        i = i + 1;
    }
    assert(rows@.take(rows@.len() as int) =~= rows@);
    (fee, vsize)
}

} // verus!
