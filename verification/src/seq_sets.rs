//! Facts about sequences that hold each element once, used as sets.
use vstd::prelude::*;

verus! {

/// Pushing an element a sequence lacks adds it to the sequence's set and
/// keeps the sequence free of repeats.
pub proof fn lemma_push_to_set<A>(s: Seq<A>, t: A)
    requires
        s.no_duplicates(),
        !s.contains(t),
    ensures
        s.push(t).to_set() =~= s.to_set().insert(t),
        s.push(t).no_duplicates(),
{
    assert forall|x: A| s.push(t).contains(x) <==> s.contains(x) || x == t by {
        if s.push(t).contains(x) && x != t {
            let k = choose|k: int| 0 <= k < s.push(t).len() && s.push(t)[k] == x;
            assert(s[k] == x);
        }
        if s.contains(x) {
            let k = choose|k: int| 0 <= k < s.len() && s[k] == x;
            assert(s.push(t)[k] == x);
        }
        if x == t {
            assert(s.push(t)[s.len() as int] == x);
        }
    }
    assert forall|i: int, j: int| 0 <= i < j < s.push(t).len() implies s.push(t)[i] != s.push(
        t,
    )[j] by {
        if j == s.len() {
            assert(s.push(t)[i] == s[i]);
        }
    }
}

/// Removing an element from a sequence free of repeats takes it out of the
/// sequence's set and keeps the sequence free of repeats.
pub proof fn lemma_remove_to_set<A>(s: Seq<A>, i: int)
    requires
        s.no_duplicates(),
        0 <= i < s.len(),
    ensures
        s.remove(i).to_set() =~= s.to_set().remove(s[i]),
        s.remove(i).no_duplicates(),
{
    let r = s.remove(i);
    assert forall|x: A| r.contains(x) <==> s.contains(x) && x != s[i] by {
        if r.contains(x) {
            let k = choose|k: int| 0 <= k < r.len() && r[k] == x;
            if k < i {
                assert(s[k] == x);
            } else {
                assert(s[k + 1] == x);
            }
        }
        if s.contains(x) && x != s[i] {
            let k = choose|k: int| 0 <= k < s.len() && s[k] == x;
            if k < i {
                assert(r[k] == x);
            } else {
                assert(r[k - 1] == x);
            }
        }
    }
    assert forall|a: int, b: int| 0 <= a < b < r.len() implies r[a] != r[b] by {
        if a < i && b < i {
        } else if a < i {
            assert(r[b] == s[b + 1]);
        } else {
            assert(r[a] == s[a + 1] && r[b] == s[b + 1]);
        }
    }
}

} // verus!
