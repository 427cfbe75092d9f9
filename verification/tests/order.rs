use api::order::{sort_strings, string_lt};

fn strings(s: &[&str]) -> Vec<String> {
    s.iter().map(|t| t.to_string()).collect()
}

#[test]
fn strings_compare_as_std_orders_them() {
    let samples = ["", "a", "ab", "b", "B", "é", "z", "aa", "ä"];
    for x in samples {
        for y in samples {
            assert_eq!(string_lt(&x.to_string(), &y.to_string()), x < y, "{x:?} < {y:?}");
        }
    }
}

#[test]
fn sorting_matches_std_and_keeps_repeats() {
    let v = strings(&["d", "b", "a", "b", "ä", "c"]);
    let mut want = v.clone();
    want.sort();
    assert_eq!(sort_strings(v), want);
}
