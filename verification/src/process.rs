//! CPU and memory of the process, parsed from the text of `/proc/self/stat`,
//! `/proc/self/status` and `/proc/stat`. Reading those files, and turning ticks
//! into seconds, happens around this module.
use crate::text::{collect_chars, segment_bounds, split_on};
use vstd::prelude::*;

verus! {

broadcast use vstd::string::group_string_axioms;

/// Ticks per second that `/proc` counts CPU in. Fixed at 100 on Linux.
pub const USER_HZ: u64 = 100;

/// Bytes per kilobyte in the `kB` fields of `/proc/self/status`.
pub const BYTES_PER_KB: u128 = 1024;

/// A byte that `u8::is_ascii_whitespace` accepts.
pub open spec fn is_ascii_ws(c: char) -> bool {
    c == ' ' || c == '\t' || c == '\n' || c == '\x0C' || c == '\r'
}

/// The maximal runs of non-whitespace in `s`, as `str::split_ascii_whitespace`
/// yields them.
pub open spec fn ws_fields(s: Seq<char>) -> Seq<Seq<char>>
    decreases s.len(),
{
    if s.len() == 0 {
        Seq::empty()
    } else {
        let prev = ws_fields(s.drop_last());
        if is_ascii_ws(s.last()) {
            prev
        } else if s.len() >= 2 && !is_ascii_ws(s[s.len() - 2]) {
            prev.update(prev.len() - 1, prev.last().push(s.last()))
        } else {
            prev.push(seq![s.last()])
        }
    }
}

/// An ASCII decimal digit.
pub open spec fn is_digit(c: char) -> bool {
    '0' <= c && c <= '9'
}

/// The number the decimal digits `s` spell.
pub open spec fn digits_value(s: Seq<char>) -> nat
    decreases s.len(),
{
    if s.len() == 0 {
        0
    } else {
        digits_value(s.drop_last()) * 10 + (s.last() as nat - '0' as nat) as nat
    }
}

/// `s` read as decimal digits whose value fits in a `u64`.
pub open spec fn digits_u64_spec(s: Seq<char>) -> Option<u64> {
    if s.len() > 0 && (forall|i: int| 0 <= i < s.len() ==> is_digit(#[trigger] s[i]))
        && digits_value(s) <= u64::MAX {
        Some(digits_value(s) as u64)
    } else {
        None
    }
}

/// `s` read as an unsigned decimal that fits in a `u64`, as `u64::from_str`
/// reads it: digits, optionally after one `+`.
pub open spec fn parse_u64_spec(s: Seq<char>) -> Option<u64> {
    if s.len() > 0 && s[0] == '+' {
        digits_u64_spec(s.drop_first())
    } else {
        digits_u64_spec(s)
    }
}

/// The index of the last `c` in `s`, if any.
pub open spec fn last_index_of(s: Seq<char>, c: char) -> Option<int>
    decreases s.len(),
{
    if s.len() == 0 {
        None
    } else if s.last() == c {
        Some(s.len() - 1)
    } else {
        last_index_of(s.drop_last(), c)
    }
}

/// Whether `s` begins with `prefix`.
pub open spec fn starts_with(s: Seq<char>, prefix: Seq<char>) -> bool {
    prefix.len() <= s.len() && s.subrange(0, prefix.len() as int) == prefix
}

/// The index of the first line of `lines` that begins with `key`, if any.
pub open spec fn first_line_with(lines: Seq<Seq<char>>, key: Seq<char>) -> Option<int>
    decreases lines.len(),
{
    if lines.len() == 0 {
        None
    } else if starts_with(lines[0], key) {
        Some(0)
    } else {
        match first_line_with(lines.drop_first(), key) {
            Some(i) => Some(i + 1),
            None => None,
        }
    }
}

/// The second whitespace-separated field of the first line of `raw` that begins
/// with `key`, read as an unsigned decimal.
pub open spec fn keyed_value_spec(raw: Seq<char>, key: Seq<char>) -> Option<u64> {
    let lines = split_on(raw, '\n');
    match first_line_with(lines, key) {
        Some(i) => {
            let fields = ws_fields(lines[i]);
            if fields.len() > 1 {
                parse_u64_spec(fields[1])
            } else {
                None
            }
        },
        None => None,
    }
}

/// Fields of `/proc/self/stat`, in clock ticks.
#[derive(Debug, Clone, Copy, PartialEq, Eq)]
pub struct Stat {
    pub cpu_user_ticks: u64,
    pub cpu_system_ticks: u64,
    pub threads: u64,
    pub start_time_ticks: u64,
}

/// Fields of `/proc/self/status`, in bytes.
#[derive(Debug, Clone, Copy, PartialEq, Eq)]
pub struct Status {
    pub resident_bytes: u128,
    pub resident_peak_bytes: u128,
    pub virtual_bytes: u128,
}

/// What `parse_stat` reads from `raw`: the fields after the last `)`, indexed from
/// `state` (field 3 of proc_pid_stat(5)) as 0.
pub open spec fn parse_stat_spec(raw: Seq<char>) -> Option<Stat> {
    match last_index_of(raw, ')') {
        None => None,
        Some(p) => {
            let fields = ws_fields(raw.subrange(p + 1, raw.len() as int));
            if fields.len() > 19 && parse_u64_spec(fields[11]) is Some && parse_u64_spec(
                fields[12],
            ) is Some && parse_u64_spec(fields[17]) is Some && parse_u64_spec(fields[19]) is Some {
                Some(
                    Stat {
                        cpu_user_ticks: parse_u64_spec(fields[11])->0,
                        cpu_system_ticks: parse_u64_spec(fields[12])->0,
                        threads: parse_u64_spec(fields[17])->0,
                        start_time_ticks: parse_u64_spec(fields[19])->0,
                    },
                )
            } else {
                None
            }
        },
    }
}

/// What `parse_status` reads from `raw`: three `<key> <n> kB` lines, in bytes.
pub open spec fn parse_status_spec(raw: Seq<char>) -> Option<Status> {
    let rss = keyed_value_spec(raw, "VmRSS:"@);
    let hwm = keyed_value_spec(raw, "VmHWM:"@);
    let size = keyed_value_spec(raw, "VmSize:"@);
    if rss is Some && hwm is Some && size is Some {
        Some(
            Status {
                resident_bytes: (rss->0 * 1024) as u128,
                resident_peak_bytes: (hwm->0 * 1024) as u128,
                virtual_bytes: (size->0 * 1024) as u128,
            },
        )
    } else {
        None
    }
}

proof fn lemma_digits_value_grows(s: Seq<char>, k: int)
    requires
        0 <= k <= s.len(),
    ensures
        digits_value(s.take(k)) <= digits_value(s),
    decreases s.len() - k,
{
    if k < s.len() {
        lemma_digits_value_grows(s, k + 1);
        assert(s.take(k + 1).drop_last() =~= s.take(k));
    } else {
        assert(s.take(k) =~= s);
    }
}

/// `chars[start..end]` read as an unsigned decimal that fits in a `u64`.
pub fn parse_u64(chars: &Vec<char>, start: usize, end: usize) -> (value: Option<u64>)
    requires
        start <= end <= chars@.len(),
    ensures
        value == parse_u64_spec(chars@.subrange(start as int, end as int)),
{
    if start < end && chars[start] == '+' {
        assert(chars@.subrange(start as int, end as int).drop_first() =~= chars@.subrange(
            start + 1,
            end as int,
        ));
        parse_digits(chars, start + 1, end)
    } else {
        parse_digits(chars, start, end)
    }
}

/// `chars[start..end]` read as decimal digits whose value fits in a `u64`.
fn parse_digits(chars: &Vec<char>, start: usize, end: usize) -> (value: Option<u64>)
    requires
        start <= end <= chars@.len(),
    ensures
        value == digits_u64_spec(chars@.subrange(start as int, end as int)),
{
    let ghost s = chars@.subrange(start as int, end as int);
    if start == end {
        return None;
    }
    let mut acc: u64 = 0;
    let mut i = start;
    while i < end
        invariant
            start <= i <= end <= chars@.len(),
            s == chars@.subrange(start as int, end as int),
            forall|j: int| 0 <= j < i - start ==> is_digit(#[trigger] s[j]),
            acc as nat == digits_value(s.take(i - start)),
        decreases end - i,
    {
        let c = chars[i];
        assert(s[i - start] == c);
        if !('0' <= c && c <= '9') {
            return None;
        }
        let d = (c as u32 - '0' as u32) as u64;
        assert(s.take(i - start + 1).drop_last() =~= s.take(i - start));
        if acc > (u64::MAX - d) / 10 {
            proof {
                assert(digits_value(s.take(i - start + 1)) == acc * 10 + d);
                assert(acc * 10 + d > u64::MAX) by (nonlinear_arith)
                    requires
                        acc > (u64::MAX - d) / 10,
                        d <= 9,
                ;
                lemma_digits_value_grows(s, i - start + 1);
            }
            return None;
        }
        acc = acc * 10 + d;
        i = i + 1;
    }
    assert(s.take(end - start) =~= s);
    Some(acc)
}

/// The index of the last `c` among `chars`, if any.
fn last_index(chars: &Vec<char>, c: char) -> (idx: Option<usize>)
    ensures
        last_index_of(chars@, c) == match idx {
            Some(p) => Some(p as int),
            None => None,
        },
        idx matches Some(p) ==> p < chars@.len(),
{
    let mut i = chars.len();
    assert(chars@.take(i as int) =~= chars@);
    while i > 0
        invariant
            i <= chars@.len(),
            last_index_of(chars@, c) == last_index_of(chars@.take(i as int), c),
        decreases i,
    {
        assert(chars@.take(i as int).drop_last() =~= chars@.take(i - 1));
        if chars[i - 1] == c {
            return Some(i - 1);
        }
        i = i - 1;
    }
    None
}

/// The whitespace-separated fields of `chars[from..to]`, as index ranges.
pub fn ws_field_bounds(chars: &Vec<char>, from: usize, to: usize) -> (bounds: Vec<(usize, usize)>)
    requires
        from <= to <= chars@.len(),
    ensures
        bounds@.len() == ws_fields(chars@.subrange(from as int, to as int)).len(),
        forall|k: int|
            #![trigger bounds@[k]]
            0 <= k < bounds@.len() ==> {
                &&& from <= bounds@[k].0 <= bounds@[k].1 <= to
                &&& chars@.subrange(bounds@[k].0 as int, bounds@[k].1 as int) == ws_fields(
                    chars@.subrange(from as int, to as int),
                )[k]
            },
{
    let mut bounds: Vec<(usize, usize)> = Vec::new();
    let mut in_token = false;
    let mut token_start: usize = from;
    let mut i = from;
    while i < to
        invariant
            from <= token_start <= i <= to <= chars@.len(),
            in_token <==> (i > from && !is_ascii_ws(chars@[i - 1])),
            in_token ==> ws_fields(chars@.subrange(from as int, i as int)).len() == bounds@.len() + 1
                && ws_fields(chars@.subrange(from as int, i as int)).last() == chars@.subrange(
                token_start as int,
                i as int,
            ),
            !in_token ==> ws_fields(chars@.subrange(from as int, i as int)).len() == bounds@.len(),
            forall|k: int|
                #![trigger bounds@[k]]
                0 <= k < bounds@.len() ==> {
                    &&& from <= bounds@[k].0 <= bounds@[k].1 <= i
                    &&& chars@.subrange(bounds@[k].0 as int, bounds@[k].1 as int) == ws_fields(
                        chars@.subrange(from as int, i as int),
                    )[k]
                },
        decreases to - i,
    {
        let ghost prev = ws_fields(chars@.subrange(from as int, i as int));
        let ghost sub = chars@.subrange(from as int, i + 1);
        assert(sub.drop_last() =~= chars@.subrange(from as int, i as int));
        assert(sub.last() == chars@[i as int]);
        if i > from {
            assert(sub[sub.len() - 2] == chars@[i - 1]);
        }
        let c = chars[i];
        let ws = c == ' ' || c == '\t' || c == '\n' || c == '\x0C' || c == '\r';
        if ws {
            if in_token {
                bounds.push((token_start, i));
            }
            in_token = false;
        } else if in_token {
            assert(chars@.subrange(token_start as int, i + 1) =~= chars@.subrange(
                token_start as int,
                i as int,
            ).push(c));
        } else {
            in_token = true;
            token_start = i;
            assert(chars@.subrange(i as int, i + 1) =~= seq![c]);
        }
        let ghost next = ws_fields(sub);
        assert forall|k: int| 0 <= k < prev.len() - 1 implies next[k] == prev[k] by {}
        i = i + 1;
    }
    if in_token {
        bounds.push((token_start, to));
    }
    bounds
}

/// The first line of `chars` that begins with the characters of `key`, as an index
/// range.
fn find_line(chars: &Vec<char>, key: &Vec<char>) -> (line: Option<(usize, usize)>)
    ensures
        match first_line_with(split_on(chars@, '\n'), key@) {
            Some(i) => line matches Some((s, e)) && s <= e <= chars@.len() && chars@.subrange(
                s as int,
                e as int,
            ) == split_on(chars@, '\n')[i],
            None => line is None,
        },
{
    let lines = segment_bounds(chars, '\n');
    let ghost all = split_on(chars@, '\n');
    let mut k: usize = 0;
    assert(all.skip(0) =~= all);
    while k < lines.len()
        invariant
            k <= lines@.len() == all.len(),
            all == split_on(chars@, '\n'),
            first_line_with(all, key@) == match first_line_with(all.skip(k as int), key@) {
                Some(i) => Some(i + k),
                None => None::<int>,
            },
            forall|j: int|
                #![trigger lines@[j]]
                0 <= j < lines@.len() ==> {
                    &&& lines@[j].0 <= lines@[j].1 <= chars@.len()
                    &&& chars@.subrange(lines@[j].0 as int, lines@[j].1 as int) == all[j]
                },
        decreases lines@.len() - k,
    {
        let (s, e) = lines[k];
        assert(all.skip(k as int)[0] == all[k as int]);
        assert(all.skip(k as int).drop_first() =~= all.skip(k + 1));
        let mut matches = key.len() <= e - s;
        if matches {
            let mut j: usize = 0;
            while j < key.len()
                invariant
                    j <= key@.len() <= e - s,
                    s <= e <= chars@.len(),
                    matches <==> forall|t: int| 0 <= t < j ==> chars@[s + t] == #[trigger] key@[t],
                decreases key@.len() - j,
            {
                if chars[s + j] != key[j] {
                    matches = false;
                }
                j = j + 1;
            }
            assert(matches <==> starts_with(all[k as int], key@)) by {
                let line = chars@.subrange(s as int, e as int);
                if matches {
                    assert(line.subrange(0, key@.len() as int) =~= key@);
                }
                if starts_with(line, key@) {
                    assert forall|t: int| 0 <= t < key@.len() implies chars@[s + t]
                        == #[trigger] key@[t] by {
                        assert(line.subrange(0, key@.len() as int)[t] == line[t]);
                    }
                }
            }
        }
        if matches {
            return Some((s, e));
        }
        k = k + 1;
    }
    assert(all.skip(k as int).len() == 0);
    None
}

/// The second whitespace-separated field of the first line of `chars` that begins
/// with `key`, read as an unsigned decimal.
fn keyed_value(chars: &Vec<char>, key: &str) -> (value: Option<u64>)
    ensures
        value == keyed_value_spec(chars@, key@),
{
    let key_chars = collect_chars(key);
    match find_line(chars, &key_chars) {
        None => None,
        Some((s, e)) => {
            let fields = ws_field_bounds(chars, s, e);
            if fields.len() > 1 {
                let (fs, fe) = fields[1];
                parse_u64(chars, fs, fe)
            } else {
                None
            }
        },
    }
}

/// Reads `/proc/self/stat`. The second field is the executable name in parens and
/// may itself contain spaces and parens, so fields are split after its *last*
/// closing paren.
pub fn parse_stat(raw: &str) -> (stat: Option<Stat>)
    ensures
        stat == parse_stat_spec(raw@),
{
    let chars = collect_chars(raw);
    let p = match last_index(&chars, ')') {
        Some(p) => p,
        None => return None,
    };
    let n = chars.len();
    let fields = ws_field_bounds(&chars, p + 1, n);
    let ghost spec_fields = ws_fields(raw@.subrange(p + 1, raw@.len() as int));
    assert(last_index_of(raw@, ')') == Some(p as int));
    assert(fields@.len() == spec_fields.len());
    if fields.len() <= 19 {
        return None;
    }
    let (s, e) = fields[11];
    let user = parse_u64(&chars, s, e);
    let (s, e) = fields[12];
    let system = parse_u64(&chars, s, e);
    let (s, e) = fields[17];
    let threads = parse_u64(&chars, s, e);
    let (s, e) = fields[19];
    let start = parse_u64(&chars, s, e);
    assert(fields@[11] == fields@[11]);
    assert(user == parse_u64_spec(spec_fields[11]));
    assert(system == parse_u64_spec(spec_fields[12]));
    assert(threads == parse_u64_spec(spec_fields[17]));
    assert(start == parse_u64_spec(spec_fields[19]));
    match (user, system, threads, start) {
        (Some(u), Some(sy), Some(t), Some(st)) => Some(
            Stat { cpu_user_ticks: u, cpu_system_ticks: sy, threads: t, start_time_ticks: st },
        ),
        _ => None,
    }
}

/// Reads the three memory lines of `/proc/self/status`, in bytes.
pub fn parse_status(raw: &str) -> (status: Option<Status>)
    ensures
        status == parse_status_spec(raw@),
{
    let chars = collect_chars(raw);
    let rss = keyed_value(&chars, "VmRSS:");
    let hwm = keyed_value(&chars, "VmHWM:");
    let size = keyed_value(&chars, "VmSize:");
    match (rss, hwm, size) {
        (Some(r), Some(h), Some(s)) => Some(
            Status {
                resident_bytes: r as u128 * BYTES_PER_KB,
                resident_peak_bytes: h as u128 * BYTES_PER_KB,
                virtual_bytes: s as u128 * BYTES_PER_KB,
            },
        ),
        _ => None,
    }
}

/// Reads `btime`, the boot time in unix seconds, from `/proc/stat`.
pub fn parse_boot_time(raw: &str) -> (boot_time: Option<u64>)
    ensures
        boot_time == keyed_value_spec(raw@, "btime "@),
{
    let chars = collect_chars(raw);
    keyed_value(&chars, "btime ")
}

/// One reading of the process: `/proc/self/stat` and `/proc/self/status`, or
/// nothing if either does not parse.
pub fn sample(stat_raw: &str, status_raw: &str) -> (reading: Option<(Stat, Status)>)
    ensures
        match (parse_stat_spec(stat_raw@), parse_status_spec(status_raw@)) {
            (Some(st), Some(ss)) => reading == Some((st, ss)),
            _ => reading is None,
        },
{
    let stat = match parse_stat(stat_raw) {
        Some(stat) => stat,
        None => return None,
    };
    let status = match parse_status(status_raw) {
        Some(status) => status,
        None => return None,
    };
    Some((stat, status))
}

} // verus!
