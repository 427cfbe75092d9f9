//! The order of txids: strings compared character by character, the order in
//! which UTF-8 strings compare byte by byte. Sorting of txid lists by it.
use crate::text::{collect_chars, string_views};
use vstd::multiset::Multiset;
use vstd::prelude::*;

verus! {

broadcast use vstd::seq_lib::group_to_multiset_ensures;

/// `a` sorts strictly before `b`: at the first character where they differ, `a`
/// has the smaller code point, or `a` is a proper prefix of `b`.
pub open spec fn lex_lt(a: Seq<char>, b: Seq<char>) -> bool
    decreases a.len(),
{
    if a.len() == 0 {
        b.len() > 0
    } else if b.len() == 0 {
        false
    } else if a[0] != b[0] {
        (a[0] as int) < (b[0] as int)
    } else {
        lex_lt(a.drop_first(), b.drop_first())
    }
}

/// Every element sorts no earlier than the ones before it.
pub open spec fn sorted(s: Seq<Seq<char>>) -> bool {
    forall|i: int, j: int| 0 <= i < j < s.len() ==> !lex_lt(#[trigger] s[j], #[trigger] s[i])
}

/// No string sorts before itself.
pub proof fn lemma_lex_lt_irreflexive(a: Seq<char>)
    ensures
        !lex_lt(a, a),
    decreases a.len(),
{
    if a.len() > 0 {
        lemma_lex_lt_irreflexive(a.drop_first());
    }
}

/// The order is transitive.
pub proof fn lemma_lex_lt_transitive(a: Seq<char>, b: Seq<char>, c: Seq<char>)
    requires
        lex_lt(a, b),
        lex_lt(b, c),
    ensures
        lex_lt(a, c),
    decreases a.len(),
{
    if a.len() > 0 && b.len() > 0 && c.len() > 0 && a[0] == b[0] && b[0] == c[0] {
        lemma_lex_lt_transitive(a.drop_first(), b.drop_first(), c.drop_first());
    }
}

/// Of two different strings, one sorts before the other.
pub proof fn lemma_lex_lt_total(a: Seq<char>, b: Seq<char>)
    ensures
        a == b || lex_lt(a, b) || lex_lt(b, a),
    decreases a.len(),
{
    if a.len() > 0 && b.len() > 0 {
        if a[0] == b[0] {
            lemma_lex_lt_total(a.drop_first(), b.drop_first());
            if a.drop_first() == b.drop_first() {
                assert(a =~= seq![a[0]] + a.drop_first());
                assert(b =~= seq![b[0]] + b.drop_first());
            }
        } else if (a[0] as int) == (b[0] as int) {
            assert(a[0] == b[0]);
        }
    } else if a.len() == 0 && b.len() == 0 {
        assert(a =~= b);
    }
}

/// Inserting an element adds it to the multiset of a sequence.
pub proof fn lemma_insert_to_multiset<A>(s: Seq<A>, p: int, x: A)
    requires
        0 <= p <= s.len(),
    ensures
        s.insert(p, x).to_multiset() =~= s.to_multiset().insert(x),
{
    let t = s.insert(p, x);
    assert(t.remove(p) =~= s);
    assert(t[p] == x);
    assert(t.contains(x));
    assert(t.to_multiset().count(x) > 0);
    assert(s.to_multiset() =~= t.to_multiset().remove(x));
}

/// Inserting `x` after every element it does not sort before, and before the
/// first it does, keeps a sorted sequence sorted.
pub proof fn lemma_insert_keeps_sorted(sb: Seq<Seq<char>>, p: int, x: Seq<char>)
    requires
        sorted(sb),
        0 <= p <= sb.len(),
        forall|q: int| 0 <= q < p ==> !lex_lt(x, #[trigger] sb[q]),
        p < sb.len() ==> lex_lt(x, sb[p]),
    ensures
        sorted(sb.insert(p, x)),
{
    let s = sb.insert(p, x);
    assert forall|a: int, b: int| 0 <= a < b < s.len() implies !lex_lt(
        #[trigger] s[b],
        #[trigger] s[a],
    ) by {
        if b < p {
            assert(s[a] == sb[a] && s[b] == sb[b]);
        } else if b == p {
            assert(s[a] == sb[a]);
        } else if a < p {
            assert(s[a] == sb[a] && s[b] == sb[b - 1]);
        } else if a == p {
            assert(s[b] == sb[b - 1]);
            if lex_lt(s[b], x) {
                lemma_lex_lt_transitive(sb[b - 1], x, sb[p]);
                lemma_lex_lt_irreflexive(sb[p]);
            }
        } else {
            assert(s[a] == sb[a - 1] && s[b] == sb[b - 1]);
        }
    }
}

/// Whether `a` sorts strictly before `b`.
pub fn string_lt(a: &String, b: &String) -> (lt: bool)
    ensures
        lt == lex_lt(a@, b@),
{
    let ca = collect_chars(a.as_str());
    let cb = collect_chars(b.as_str());
    let mut i: usize = 0;
    assert(a@.skip(0) =~= a@);
    assert(b@.skip(0) =~= b@);
    while i < ca.len() && i < cb.len()
        invariant
            ca@ == a@,
            cb@ == b@,
            i <= ca@.len(),
            i <= cb@.len(),
            lex_lt(a@, b@) == lex_lt(a@.skip(i as int), b@.skip(i as int)),
        decreases ca@.len() - i,
    {
        if ca[i] != cb[i] {
            let x = ca[i];
            let y = cb[i];
            assert(a@.skip(i as int)[0] == x);
            assert(b@.skip(i as int)[0] == y);
            return x < y;
        }
        assert(a@.skip(i as int).drop_first() =~= a@.skip(i + 1));
        assert(b@.skip(i as int).drop_first() =~= b@.skip(i + 1));
        i = i + 1;
    }
    i < cb.len()
}

/// The strings of `v` in sorted order, each as often as in `v`.
pub fn sort_strings(v: Vec<String>) -> (out: Vec<String>)
    ensures
        sorted(string_views(out@)),
        string_views(out@).to_multiset() =~= string_views(v@).to_multiset(),
{
    let mut out: Vec<String> = Vec::new();
    let mut i: usize = 0;
    assert(string_views(out@) =~= string_views(v@.take(0)));
    while i < v.len()
        invariant
            i <= v@.len(),
            sorted(string_views(out@)),
            string_views(out@).to_multiset() =~= string_views(v@.take(i as int)).to_multiset(),
        decreases v@.len() - i,
    {
        let x = v[i].clone();
        let mut p: usize = 0;
        while p < out.len() && !string_lt(&x, &out[p])
            invariant
                p <= out@.len(),
                forall|q: int| 0 <= q < p ==> !lex_lt(x@, #[trigger] out@[q]@),
            decreases out@.len() - p,
        {
            p = p + 1;
        }
        let ghost before = out@;
        proof {
            lemma_insert_to_multiset(string_views(before), p as int, x@);
            assert(string_views(v@.take(i + 1)) =~= string_views(v@.take(i as int)).push(x@));
        }
        out.insert(p, x);
        proof {
            assert(string_views(out@) =~= string_views(before).insert(p as int, x@));
            lemma_insert_keeps_sorted(string_views(before), p as int, x@);
        }
        i = i + 1;
    }
    assert(v@.take(v@.len() as int) =~= v@);
    out
}

} // verus!
