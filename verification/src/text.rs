//! Text helpers: the characters of a string, its segments between separators,
//! decimal rendering of counts, and lists of strings filtered and without
//! repeats.
use vstd::prelude::*;

verus! {

broadcast use vstd::string::group_string_axioms;

/// `s` cut at every `sep`, as `str::split` cuts it: `n` separators give `n + 1`
/// segments, empty ones included.
pub open spec fn split_on(s: Seq<char>, sep: char) -> Seq<Seq<char>>
    decreases s.len(),
{
    if s.len() == 0 {
        seq![Seq::<char>::empty()]
    } else {
        let prev = split_on(s.drop_last(), sep);
        if s.last() == sep {
            prev.push(Seq::<char>::empty())
        } else {
            prev.update(prev.len() - 1, prev.last().push(s.last()))
        }
    }
}


/// The character views of a sequence of strings.
pub open spec fn string_views(v: Seq<String>) -> Seq<Seq<char>> {
    v.map_values(|s: String| s@)
}

/// The character of a decimal digit.
pub open spec fn digit_char(d: nat) -> char {
    if d == 0 { '0' }
    else if d == 1 { '1' }
    else if d == 2 { '2' }
    else if d == 3 { '3' }
    else if d == 4 { '4' }
    else if d == 5 { '5' }
    else if d == 6 { '6' }
    else if d == 7 { '7' }
    else if d == 8 { '8' }
    else { '9' }
}

/// The decimal rendering of `n`, most significant digit first, without
/// leading zeros.
pub open spec fn decimal(n: nat) -> Seq<char>
    decreases n,
{
    if n < 10 {
        seq![digit_char(n)]
    } else {
        decimal(n / 10).push(digit_char(n % 10))
    }
}

/// The one-character string of a decimal digit.
fn digit_str(d: u8) -> (s: &'static str)
    requires
        d < 10,
    ensures
        s@ == seq![digit_char(d as nat)],
{
    proof {
        reveal_strlit("0");
        reveal_strlit("1");
        reveal_strlit("2");
        reveal_strlit("3");
        reveal_strlit("4");
        reveal_strlit("5");
        reveal_strlit("6");
        reveal_strlit("7");
        reveal_strlit("8");
        reveal_strlit("9");
    }
    match d {
        0 => "0",
        1 => "1",
        2 => "2",
        3 => "3",
        4 => "4",
        5 => "5",
        6 => "6",
        7 => "7",
        8 => "8",
        _ => "9",
    }
}

/// Appends the decimal rendering of `n` to `out`.
pub fn push_decimal(out: &mut String, n: u64)
    ensures
        final(out)@ == old(out)@ + decimal(n as nat),
    decreases n,
{
    if n >= 10 {
        push_decimal(out, n / 10);
    }
    let d = (n % 10) as u8;
    out.append(digit_str(d));
    proof {
        if n >= 10 {
            assert(decimal(n as nat) == decimal((n / 10) as nat).push(digit_char((n % 10) as nat)));
        }
    }
    assert(out@ =~= old(out)@ + decimal(n as nat));
}

/// The segments of `v` joined by `sep`, as `[String]::join` joins them.
pub open spec fn join(v: Seq<Seq<char>>, sep: char) -> Seq<char>
    decreases v.len(),
{
    if v.len() == 0 {
        Seq::empty()
    } else if v.len() == 1 {
        v[0]
    } else {
        join(v.drop_last(), sep).push(sep) + v.last()
    }
}

/// Appending text without a separator extends the last segment.
pub proof fn lemma_split_on_append(s: Seq<char>, t: Seq<char>, sep: char)
    requires
        !t.contains(sep),
    ensures
        split_on(s + t, sep) == split_on(s, sep).update(
            split_on(s, sep).len() - 1,
            split_on(s, sep).last() + t,
        ),
    decreases t.len(),
{
    lemma_split_on_nonempty(s, sep);
    let p = split_on(s, sep);
    if t.len() == 0 {
        assert(s + t =~= s);
        assert(p.last() + t =~= p.last());
        assert(p.update(p.len() - 1, p.last() + t) =~= p);
    } else {
        let t0 = t.drop_last();
        assert(!t0.contains(sep)) by {
            if t0.contains(sep) {
                let k = choose|k: int| 0 <= k < t0.len() && t0[k] == sep;
                assert(t[k] == sep);
            }
        }
        lemma_split_on_append(s, t0, sep);
        assert(t[t.len() - 1] != sep);
        assert((s + t).drop_last() =~= s + t0);
        assert((s + t).last() == t.last());
        let q = split_on(s + t0, sep);
        assert(q.len() == p.len());
        assert(q.last() == p.last() + t0);
        assert(q.last().push(t.last()) =~= p.last() + t);
        assert(q.update(q.len() - 1, q.last().push(t.last())) =~= p.update(
            p.len() - 1,
            p.last() + t,
        ));
    }
}

/// Splitting segments joined by a separator none of them holds gives them back.
pub proof fn lemma_split_join(v: Seq<Seq<char>>, sep: char)
    requires
        v.len() > 0,
        forall|i: int| 0 <= i < v.len() ==> !(#[trigger] v[i]).contains(sep),
    ensures
        split_on(join(v, sep), sep) == v,
    decreases v.len(),
{
    if v.len() == 1 {
        lemma_split_on_append(Seq::empty(), v[0], sep);
        assert(Seq::<char>::empty() + v[0] =~= v[0]);
        assert(split_on(Seq::<char>::empty(), sep) == seq![Seq::<char>::empty()]);
        assert(Seq::<char>::empty() + v[0] =~= v[0]);
        assert(seq![Seq::<char>::empty()].update(0, Seq::<char>::empty() + v[0]) =~= v);
    } else {
        let p = v.drop_last();
        assert forall|i: int| 0 <= i < p.len() implies !(#[trigger] p[i]).contains(sep) by {
            assert(p[i] == v[i]);
        }
        lemma_split_join(p, sep);
        let head = join(p, sep).push(sep);
        assert(!v.last().contains(sep)) by {
            assert(v[v.len() - 1] == v.last());
        }
        lemma_split_on_append(head, v.last(), sep);
        assert(head.drop_last() =~= join(p, sep));
        let sh = split_on(head, sep);
        assert(sh == p.push(Seq::<char>::empty()));
        assert(Seq::<char>::empty() + v.last() =~= v.last());
        assert(sh.update(sh.len() - 1, sh.last() + v.last()) =~= v);
    }
}

/// A sequence without repeats is its own deduplication.
pub proof fn lemma_dedupe_of_distinct<T>(s: Seq<T>)
    requires
        s.no_duplicates(),
    ensures
        dedupe(s) == s,
    decreases s.len(),
{
    if s.len() > 0 {
        let p = s.drop_last();
        assert(p.no_duplicates()) by {
            assert forall|i: int, j: int| 0 <= i < p.len() && 0 <= j < p.len() && i != j implies p[i]
                != p[j] by {
                assert(p[i] == s[i] && p[j] == s[j]);
            }
        }
        lemma_dedupe_of_distinct(p);
        assert(!p.contains(s.last())) by {
            if p.contains(s.last()) {
                let k = choose|k: int| 0 <= k < p.len() && p[k] == s.last();
                assert(s[k] == s[s.len() - 1]);
            }
        }
        assert(p.push(s.last()) =~= s);
    }
}

/// Splitting always yields at least one segment.
pub proof fn lemma_split_on_nonempty(s: Seq<char>, sep: char)
    ensures
        split_on(s, sep).len() >= 1,
    decreases s.len(),
{
    if s.len() > 0 {
        lemma_split_on_nonempty(s.drop_last(), sep);
    }
}

/// The characters of `raw`, in order.
pub fn collect_chars(raw: &str) -> (chars: Vec<char>)
    ensures
        chars@ == raw@,
{
    let mut chars: Vec<char> = Vec::new();
    for c in it: raw.chars()
        invariant
            chars@ == it.seq().take(it.index() as int),
    {
        chars.push(c);
    }
    assert(chars@ =~= raw@);
    chars
}

/// The segments of `chars` cut at every `sep`, as half-open index ranges.
pub fn segment_bounds(chars: &Vec<char>, sep: char) -> (bounds: Vec<(usize, usize)>)
    ensures
        bounds@.len() == split_on(chars@, sep).len(),
        forall|k: int|
            #![trigger bounds@[k]]
            0 <= k < bounds@.len() ==> {
                &&& bounds@[k].0 <= bounds@[k].1 <= chars@.len()
                &&& chars@.subrange(bounds@[k].0 as int, bounds@[k].1 as int)
                    == split_on(chars@, sep)[k]
            },
{
    let mut bounds: Vec<(usize, usize)> = Vec::new();
    let mut start: usize = 0;
    let n = chars.len();
    let mut i: usize = 0;
    while i < n
        invariant
            n == chars@.len(),
            start <= i <= n,
            split_on(chars@.take(i as int), sep).len() == bounds@.len() + 1,
            split_on(chars@.take(i as int), sep).last() == chars@.subrange(start as int, i as int),
            forall|k: int|
                #![trigger bounds@[k]]
                0 <= k < bounds@.len() ==> {
                    &&& bounds@[k].0 <= bounds@[k].1 <= start
                    &&& chars@.subrange(bounds@[k].0 as int, bounds@[k].1 as int)
                        == split_on(chars@.take(i as int), sep)[k]
                },
        decreases n - i,
    {
        let ghost prev = split_on(chars@.take(i as int), sep);
        assert(chars@.take(i + 1).drop_last() =~= chars@.take(i as int));
        assert(chars@.take(i + 1).last() == chars@[i as int]);
        if chars[i] == sep {
            bounds.push((start, i));
            start = i + 1;
            assert(chars@.subrange(start as int, (i + 1) as int) =~= Seq::<char>::empty());
        } else {
            assert(chars@.subrange(start as int, (i + 1) as int)
                =~= chars@.subrange(start as int, i as int).push(chars@[i as int]));
        }
        let ghost next = split_on(chars@.take(i + 1), sep);
        assert forall|k: int| 0 <= k < prev.len() - 1 implies next[k] == prev[k] by {}
        i = i + 1;
    }
    let ghost old_bounds = bounds@;
    bounds.push((start, n));
    assert(chars@.take(n as int) =~= chars@);
    assert forall|k: int| #![trigger bounds@[k]] 0 <= k < bounds@.len() implies {
        &&& bounds@[k].0 <= bounds@[k].1 <= chars@.len()
        &&& chars@.subrange(bounds@[k].0 as int, bounds@[k].1 as int) == split_on(chars@, sep)[k]
    } by {
        if k < old_bounds.len() {
            assert(bounds@[k] == old_bounds[k]);
        }
    }
    bounds
}

/// A copy of a list of strings.
pub fn copy_strings(strings: &Vec<String>) -> (copy: Vec<String>)
    ensures
        string_views(copy@) == string_views(strings@),
{
    let mut copy: Vec<String> = Vec::new();
    let mut i: usize = 0;
    while i < strings.len()
        invariant
            i <= strings@.len(),
            copy@.len() == i,
            string_views(copy@) == string_views(strings@).take(i as int),
        decreases strings@.len() - i,
    {
        let s = strings[i].clone();
        assert(s@ == strings@[i as int]@);
        let ghost prev = copy@;
        copy.push(s);
        assert forall|j: int| 0 <= j < i implies #[trigger] string_views(copy@)[j]
            == string_views(strings@)[j] by {
            assert(copy@[j] == prev[j]);
            assert(string_views(prev)[j] == string_views(strings@).take(i as int)[j]);
        }
        assert(string_views(copy@) =~= string_views(strings@).take(i + 1));
        i = i + 1;
    }
    assert(string_views(strings@).take(i as int) =~= string_views(strings@));
    copy
}

/// The members of `s` that are not in `gone`, in order.
pub open spec fn without(s: Seq<Seq<char>>, gone: Seq<Seq<char>>) -> Seq<Seq<char>> {
    s.filter(|t: Seq<char>| !gone.contains(t))
}

/// The members of `s` that are in `kept`, in order.
pub open spec fn within(s: Seq<Seq<char>>, kept: Seq<Seq<char>>) -> Seq<Seq<char>> {
    s.filter(|t: Seq<char>| kept.contains(t))
}

/// What `without` keeps: the members of `s` that are not in `gone`.
pub proof fn lemma_without_contains(s: Seq<Seq<char>>, gone: Seq<Seq<char>>, x: Seq<char>)
    ensures
        without(s, gone).contains(x) <==> s.contains(x) && !gone.contains(x),
{
    broadcast use vstd::seq_lib::group_filter_ensures;

    let pred = |t: Seq<char>| !gone.contains(t);
    if without(s, gone).contains(x) {
        s.lemma_filter_contains_rev(pred, x);
        let k = choose|k: int| 0 <= k < without(s, gone).len() && without(s, gone)[k] == x;
        assert(pred(s.filter(pred)[k]));
    }
    if s.contains(x) && !gone.contains(x) {
        let k = choose|k: int| 0 <= k < s.len() && s[k] == x;
        s.lemma_filter_contains(pred, k);
    }
}

/// Whether `needle` is among `haystack`.
pub fn contains_string(haystack: &Vec<String>, needle: &String) -> (found: bool)
    ensures
        found == string_views(haystack@).contains(needle@),
{
    let mut i: usize = 0;
    while i < haystack.len()
        invariant
            i <= haystack@.len(),
            forall|j: int| 0 <= j < i ==> haystack@[j]@ != needle@,
        decreases haystack@.len() - i,
    {
        if haystack[i] == *needle {
            assert(string_views(haystack@)[i as int] == needle@);
            return true;
        }
        i = i + 1;
    }
    proof {
        if string_views(haystack@).contains(needle@) {
            let j = choose|j: int|
                0 <= j < string_views(haystack@).len() && string_views(haystack@)[j] == needle@;
            assert(haystack@[j]@ == needle@);
        }
    }
    false
}

/// The strings of `s` that are (`keep_present`) or are not (`!keep_present`)
/// among `other`, in order.
pub fn filter_strings(s: &Vec<String>, other: &Vec<String>, keep_present: bool) -> (out: Vec<
    String,
>)
    ensures
        keep_present ==> string_views(out@) == within(string_views(s@), string_views(other@)),
        !keep_present ==> string_views(out@) == without(string_views(s@), string_views(other@)),
{
    let ghost pred = if keep_present {
        |t: Seq<char>| string_views(other@).contains(t)
    } else {
        |t: Seq<char>| !string_views(other@).contains(t)
    };
    let mut out: Vec<String> = Vec::new();
    let mut i: usize = 0;
    while i < s.len()
        invariant
            i <= s@.len(),
            pred == (if keep_present {
                |t: Seq<char>| string_views(other@).contains(t)
            } else {
                |t: Seq<char>| !string_views(other@).contains(t)
            }),
            string_views(out@) == string_views(s@).take(i as int).filter(pred),
        decreases s@.len() - i,
    {
        let ghost before = out@;
        let present = contains_string(other, &s[i]);
        assert(string_views(s@).take(i + 1).drop_last() =~= string_views(s@).take(i as int));
        assert(string_views(s@).take(i + 1).last() == s@[i as int]@);
        reveal_with_fuel(Seq::filter, 1);
        if present == keep_present {
            let t = s[i].clone();
            out.push(t);
            assert(string_views(out@) =~= string_views(before).push(s@[i as int]@));
        }
        i = i + 1;
    }
    assert(string_views(s@).take(s@.len() as int) =~= string_views(s@));
    out
}

/// `s` with every repeat of an earlier element left out, in first-seen order.
pub open spec fn dedupe<T>(s: Seq<T>) -> Seq<T>
    decreases s.len(),
{
    if s.len() == 0 {
        Seq::empty()
    } else {
        let prev = dedupe(s.drop_last());
        if prev.contains(s.last()) {
            prev
        } else {
            prev.push(s.last())
        }
    }
}

/// The strings of `v` without repeats, each where it first occurs.
pub fn distinct_strings(v: &Vec<String>) -> (out: Vec<String>)
    ensures
        string_views(out@) == dedupe(string_views(v@)),
{
    let mut out: Vec<String> = Vec::new();
    let mut i: usize = 0;
    while i < v.len()
        invariant
            i <= v@.len(),
            string_views(out@) == dedupe(string_views(v@).take(i as int)),
        decreases v@.len() - i,
    {
        let ghost prev = string_views(v@).take(i as int);
        assert(string_views(v@).take(i + 1) =~= prev.push(v@[i as int]@));
        assert(prev.push(v@[i as int]@).drop_last() =~= prev);
        if !contains_string(&out, &v[i]) {
            let ghost before = out@;
            out.push(v[i].clone());
            assert(string_views(out@) =~= string_views(before).push(v@[i as int]@));
        }
        i = i + 1;
    }
    assert(string_views(v@).take(v@.len() as int) =~= string_views(v@));
    out
}

/// Deduplicating never lengthens a sequence, and keeps a non-empty one
/// non-empty.
pub proof fn lemma_dedupe_len<T>(s: Seq<T>)
    ensures
        dedupe(s).len() <= s.len(),
        s.len() > 0 ==> dedupe(s).len() > 0,
    decreases s.len(),
{
    if s.len() > 0 {
        lemma_dedupe_len(s.drop_last());
    }
}

/// Every element of `dedupe(s)` is an element of `s` and the other way round,
/// and none repeats.
pub proof fn lemma_dedupe<T>(s: Seq<T>)
    ensures
        forall|x: T| dedupe(s).contains(x) <==> s.contains(x),
        dedupe(s).no_duplicates(),
    decreases s.len(),
{
    if s.len() > 0 {
        let p = s.drop_last();
        lemma_dedupe(p);
        assert(s =~= p.push(s.last()));
        assert forall|x: T| dedupe(s).contains(x) <==> s.contains(x) by {
            if x == s.last() {
                assert(s[s.len() - 1] == x);
                if !dedupe(p).contains(x) {
                    assert(dedupe(s)[dedupe(p).len() as int] == x);
                }
            } else {
                if dedupe(s).contains(x) {
                    let k = choose|k: int| 0 <= k < dedupe(s).len() && dedupe(s)[k] == x;
                    assert(dedupe(p)[k] == x);
                    assert(p.contains(x));
                    let m = choose|m: int| 0 <= m < p.len() && p[m] == x;
                    assert(s[m] == x);
                }
                if s.contains(x) {
                    let m = choose|m: int| 0 <= m < s.len() && s[m] == x;
                    assert(p[m] == x);
                    assert(p.contains(x));
                    assert(dedupe(p).contains(x));
                    let k = choose|k: int| 0 <= k < dedupe(p).len() && dedupe(p)[k] == x;
                    assert(dedupe(s)[k] == x);
                }
            }
        }
        if !dedupe(p).contains(s.last()) {
            assert forall|a: int, b: int| 0 <= a < b < dedupe(s).len() implies dedupe(s)[a]
                != dedupe(s)[b] by {
                if b == dedupe(p).len() {
                    assert(dedupe(s)[a] == dedupe(p)[a]);
                    assert(dedupe(p).contains(dedupe(p)[a]));
                }
            }
        }
    }
}

} // verus!
