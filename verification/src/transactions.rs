//! The `txids` query parameter of the transaction lookup: a comma-separated
//! list of txids, validated and deduplicated.
use crate::error::ApiError;
use crate::text::{
    collect_chars, decimal, dedupe, join, lemma_dedupe, lemma_dedupe_len, lemma_dedupe_of_distinct,
    lemma_split_join, lemma_split_on_nonempty, push_decimal, segment_bounds, split_on,
    string_views,
};
use vstd::prelude::*;

verus! {

/// Clusters cap at 64 transactions; 128 leaves headroom without inviting abuse.
pub const MAX_TXIDS: usize = 128;

/// Length of a txid in hex characters.
pub const TXID_LEN: usize = 64;

/// A lowercase hexadecimal digit.
pub open spec fn is_lower_hex(c: char) -> bool {
    ('0' <= c && c <= '9') || ('a' <= c && c <= 'f')
}

/// 64-char lowercase hex, matching how a txid is stored and displayed.
pub open spec fn is_txid(s: Seq<char>) -> bool {
    s.len() == TXID_LEN && forall|i: int| 0 <= i < s.len() ==> is_lower_hex(#[trigger] s[i])
}

/// Whether `k` is the first segment that is not a txid.
pub open spec fn first_invalid(segments: Seq<Seq<char>>, k: int) -> bool {
    &&& 0 <= k < segments.len()
    &&& !is_txid(segments[k])
    &&& forall|j: int| 0 <= j < k ==> is_txid(#[trigger] segments[j])
}

/// The error message for an empty parameter.
pub open spec fn empty_message() -> Seq<char> {
    "`txids` must not be empty"@
}

/// The error message for a parameter with more than `MAX_TXIDS` segments.
pub open spec fn too_many_message(count: nat) -> Seq<char> {
    "at most "@ + decimal(MAX_TXIDS as nat) + " txids allowed, got "@ + decimal(count)
}

/// The error message for a segment that is not a txid.
pub open spec fn invalid_message(segment: Seq<char>) -> Seq<char> {
    "invalid txid: `"@ + segment + "`"@
}

/// What `parse_txids` answers for `raw`.
pub open spec fn parse_txids_spec(raw: Seq<char>) -> Result<Seq<Seq<char>>, Seq<char>> {
    let segments = split_on(raw, ',');
    if raw.len() == 0 {
        Err(empty_message())
    } else if segments.len() > MAX_TXIDS {
        Err(too_many_message(segments.len()))
    } else if exists|k: int| first_invalid(segments, k) {
        Err(invalid_message(segments[choose|k: int| first_invalid(segments, k)]))
    } else {
        Ok(dedupe(segments))
    }
}

/// Whether `chars[start..end]` is a txid.
fn is_valid_txid(chars: &Vec<char>, start: usize, end: usize) -> (valid: bool)
    requires
        start <= end <= chars@.len(),
    ensures
        valid == is_txid(chars@.subrange(start as int, end as int)),
{
    if end - start != TXID_LEN {
        return false;
    }
    let mut i = start;
    while i < end
        invariant
            start <= i <= end <= chars@.len(),
            end - start == TXID_LEN,
            forall|j: int| start <= j < i ==> is_lower_hex(#[trigger] chars@[j]),
        decreases end - i,
    {
        let c = chars[i];
        if !(('0' <= c && c <= '9') || ('a' <= c && c <= 'f')) {
            assert(!is_lower_hex(chars@.subrange(start as int, end as int)[i - start]));
            return false;
        }
        i = i + 1;
    }
    assert forall|j: int| 0 <= j < (end - start) implies is_lower_hex(
        #[trigger] chars@.subrange(start as int, end as int)[j],
    ) by {
        assert(chars@.subrange(start as int, end as int)[j] == chars@[start + j]);
    }
    true
}

/// Parses the comma-separated `txids` parameter: rejects an empty list, more than
/// `MAX_TXIDS` segments (counted before deduplication) and any segment that is not
/// a txid, naming the first such segment; otherwise returns the txids without
/// repeats, in first-seen order.
pub fn parse_txids(raw: &str) -> (res: Result<Vec<String>, ApiError>)
    ensures
        match parse_txids_spec(raw@) {
            Ok(txids) => res matches Ok(v) && string_views(v@) == txids,
            Err(msg) => res matches Err(ApiError::BadRequest(m)) && m@ == msg,
        },
{
    if raw.is_empty() {
        let msg = "`txids` must not be empty".to_string();
        return Err(ApiError::BadRequest(msg));
    }
    let chars = collect_chars(raw);
    let bounds = segment_bounds(&chars, ',');
    let ghost segments = split_on(raw@, ',');
    if bounds.len() > MAX_TXIDS {
        let mut msg = "at most ".to_string();
        push_decimal(&mut msg, MAX_TXIDS as u64);
        msg.append(" txids allowed, got ");
        push_decimal(&mut msg, bounds.len() as u64);
        return Err(ApiError::BadRequest(msg));
    }
    let mut k: usize = 0;
    while k < bounds.len()
        invariant
            chars@ == raw@,
            raw@.len() != 0,
            bounds@.len() <= MAX_TXIDS,
            segments == split_on(raw@, ','),
            bounds@.len() == segments.len(),
            k <= bounds@.len(),
            forall|j: int| 0 <= j < k ==> is_txid(#[trigger] segments[j]),
            forall|j: int|
                #![trigger bounds@[j]]
                0 <= j < bounds@.len() ==> {
                    &&& bounds@[j].0 <= bounds@[j].1 <= chars@.len()
                    &&& chars@.subrange(bounds@[j].0 as int, bounds@[j].1 as int)
                        == segments[j]
                },
        decreases bounds@.len() - k,
    {
        let (start, end) = bounds[k];
        if !is_valid_txid(&chars, start, end) {
            assert(first_invalid(segments, k as int));
            let mut msg = "invalid txid: `".to_string();
            let segment = raw.substring_char(start, end);
            assert(segment@ == segments[k as int]);
            msg.append(segment);
            msg.append("`");
            assert(msg@ == invalid_message(segments[k as int]));
            proof {
                let c = choose|c: int| first_invalid(segments, c);
                assert(first_invalid(segments, c));
                if c < k {
                    assert(is_txid(segments[c]));
                } else if c > k {
                    assert(is_txid(segments[k as int]));
                }
                assert(c == k);
                assert(parse_txids_spec(raw@) == Err::<Seq<Seq<char>>, Seq<char>>(
                    invalid_message(segments[k as int]),
                ));
            }
            return Err(ApiError::BadRequest(msg));
        }
        k = k + 1;
    }
    let mut txids: Vec<String> = Vec::new();
    let mut k: usize = 0;
    while k < bounds.len()
        invariant
            chars@ == raw@,
            raw@.len() != 0,
            bounds@.len() <= MAX_TXIDS,
            segments == split_on(raw@, ','),
            bounds@.len() == segments.len(),
            k <= bounds@.len(),
            forall|j: int|
                #![trigger bounds@[j]]
                0 <= j < bounds@.len() ==> {
                    &&& bounds@[j].0 <= bounds@[j].1 <= chars@.len()
                    &&& chars@.subrange(bounds@[j].0 as int, bounds@[j].1 as int)
                        == segments[j]
                },
            string_views(txids@) == dedupe(segments.take(k as int)),
        decreases bounds@.len() - k,
    {
        let (start, end) = bounds[k];
        let segment = raw.substring_char(start, end).to_string();
        let ghost prev = string_views(txids@);
        assert(segments.take(k + 1).drop_last() =~= segments.take(k as int));
        assert(segments.take(k + 1).last() == segments[k as int]);
        let mut seen = false;
        let mut j: usize = 0;
        while j < txids.len()
            invariant
                j <= txids@.len(),
                prev == string_views(txids@),
                seen <==> exists|i: int| 0 <= i < j && #[trigger] txids@[i]@ == segment@,
            decreases txids@.len() - j,
        {
            if txids[j] == segment {
                seen = true;
            }
            j = j + 1;
        }
        assert(seen <==> prev.contains(segment@)) by {
            if prev.contains(segment@) {
                let i = choose|i: int| 0 <= i < prev.len() && prev[i] == segment@;
                assert(txids@[i]@ == segment@);
            }
            if seen {
                let i = choose|i: int| 0 <= i < j && #[trigger] txids@[i]@ == segment@;
                assert(prev[i] == segment@);
            }
        }
        if !seen {
            txids.push(segment);
            assert(string_views(txids@) =~= prev.push(segments[k as int]));
        }
        k = k + 1;
    }
    assert(segments.take(bounds@.len() as int) =~= segments);
    proof {
        if exists|c: int| first_invalid(segments, c) {
            let c = choose|c: int| first_invalid(segments, c);
            assert(is_txid(segments[c]));
        }
    }
    Ok(txids)
}

proof fn lemma_first_invalid_exists(segments: Seq<Seq<char>>, k: int)
    requires
        0 <= k < segments.len(),
        !is_txid(segments[k]),
    ensures
        exists|j: int| first_invalid(segments, j),
    decreases k,
{
    if forall|j: int| 0 <= j < k ==> is_txid(#[trigger] segments[j]) {
        assert(first_invalid(segments, k));
    } else {
        let j = choose|j: int| 0 <= j < k && !is_txid(#[trigger] segments[j]);
        lemma_first_invalid_exists(segments, j);
    }
}

/// An accepted `txids` parameter yields at least one and at most `MAX_TXIDS`
/// txids, each a txid, none twice.
pub proof fn accepted_txids_are_valid_distinct_and_bounded(raw: Seq<char>)
    ensures
        parse_txids_spec(raw) matches Ok(txids) ==> {
            &&& 1 <= txids.len() <= MAX_TXIDS
            &&& txids.no_duplicates()
            &&& forall|i: int| 0 <= i < txids.len() ==> is_txid(#[trigger] txids[i])
        },
{
    let segments = split_on(raw, ',');
    if parse_txids_spec(raw) is Ok {
        lemma_split_on_nonempty(raw, ',');
        lemma_dedupe(segments);
        lemma_dedupe_len(segments);
        let txids = dedupe(segments);
        assert forall|i: int| 0 <= i < txids.len() implies is_txid(#[trigger] txids[i]) by {
            assert(txids.contains(txids[i]));
            assert(segments.contains(txids[i]));
            let k = choose|k: int| 0 <= k < segments.len() && segments[k] == txids[i];
            if !is_txid(segments[k]) {
                lemma_first_invalid_exists(segments, k);
            }
        }
    }
}

/// Accepted txids, joined by commas, parse back to the same list.
pub proof fn rejoined_txids_parse_back(raw: Seq<char>)
    ensures
        parse_txids_spec(raw) matches Ok(txids) ==> parse_txids_spec(join(txids, ',')) == Ok::<
            Seq<Seq<char>>,
            Seq<char>,
        >(txids),
{
    if let Ok(txids) = parse_txids_spec(raw) {
        accepted_txids_are_valid_distinct_and_bounded(raw);
        assert forall|i: int| 0 <= i < txids.len() implies !(#[trigger] txids[i]).contains(',') by {
            if txids[i].contains(',') {
                let k = choose|k: int| 0 <= k < txids[i].len() && txids[i][k] == ',';
                assert(is_lower_hex(txids[i][k]));
            }
        }
        lemma_split_join(txids, ',');
        lemma_dedupe_of_distinct(txids);
        let again = join(txids, ',');
        assert(again.len() > 0) by {
            lemma_join_nonempty(txids, ',');
        }
        assert(!exists|k: int| first_invalid(txids, k));
    }
}

proof fn lemma_join_nonempty(v: Seq<Seq<char>>, sep: char)
    requires
        v.len() > 0,
        v.last().len() > 0,
    ensures
        join(v, sep).len() > 0,
{
    if v.len() > 1 {
        assert((join(v.drop_last(), sep).push(sep) + v.last()).len() >= v.last().len());
    }
}

} // verus!
