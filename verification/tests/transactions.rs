use api::error::ApiError;
use api::transactions::parse_txids;

#[test]
fn empty_input_is_rejected() {
    assert!(matches!(parse_txids(""), Err(ApiError::BadRequest(_))));
}

#[test]
fn too_many_segments_is_rejected_before_dedupe() {
    let raw = vec!["a".repeat(64); 129].join(",");
    assert!(matches!(parse_txids(&raw), Err(ApiError::BadRequest(_))));
}

#[test]
fn a_63_char_txid_is_rejected() {
    let raw = "a".repeat(63);
    assert!(matches!(parse_txids(&raw), Err(ApiError::BadRequest(_))));
}

#[test]
fn a_65_char_txid_is_rejected() {
    let raw = "a".repeat(65);
    assert!(matches!(parse_txids(&raw), Err(ApiError::BadRequest(_))));
}

#[test]
fn an_uppercase_txid_is_rejected() {
    let raw = "A".repeat(64);
    assert!(matches!(parse_txids(&raw), Err(ApiError::BadRequest(_))));
}

#[test]
fn a_non_hex_txid_is_rejected() {
    let raw = "g".repeat(64);
    assert!(matches!(parse_txids(&raw), Err(ApiError::BadRequest(_))));
}

#[test]
fn a_valid_pair_is_accepted() {
    let a = "a".repeat(64);
    let b = "b".repeat(64);
    let raw = format!("{a},{b}");
    assert_eq!(parse_txids(&raw).unwrap(), vec![a, b]);
}

#[test]
fn dedupe_preserves_first_seen_order() {
    let a = "a".repeat(64);
    let b = "b".repeat(64);
    let raw = format!("{a},{b},{a}");
    assert_eq!(parse_txids(&raw).unwrap(), vec![a, b]);
}

fn bad_request_message(raw: &str) -> String {
    match parse_txids(raw) {
        Err(ApiError::BadRequest(msg)) => msg,
        other => panic!("expected a bad request, got {other:?}"),
    }
}

#[test]
fn empty_input_names_the_parameter() {
    assert_eq!(bad_request_message(""), "`txids` must not be empty");
}

#[test]
fn too_many_segments_reports_the_count() {
    let raw = vec!["a".repeat(64); 129].join(",");
    assert_eq!(bad_request_message(&raw), "at most 128 txids allowed, got 129");
}

#[test]
fn exactly_the_maximum_is_accepted() {
    let raw = vec!["c".repeat(64); 128].join(",");
    assert_eq!(parse_txids(&raw).unwrap(), vec!["c".repeat(64)]);
}

#[test]
fn the_first_invalid_segment_is_named() {
    let a = "a".repeat(64);
    let raw = format!("{a},xyz,{a},ZZ");
    assert_eq!(bad_request_message(&raw), "invalid txid: `xyz`");
}

#[test]
fn a_trailing_comma_makes_an_empty_invalid_segment() {
    let a = "a".repeat(64);
    let raw = format!("{a},");
    assert_eq!(bad_request_message(&raw), "invalid txid: ``");
}

#[test]
fn a_non_ascii_segment_is_rejected_by_name() {
    let raw = "é".repeat(64);
    assert_eq!(bad_request_message(&raw), format!("invalid txid: `{raw}`"));
}

#[test]
fn digits_and_hex_letters_mix() {
    let t = "0123456789abcdef".repeat(4);
    assert_eq!(parse_txids(&t).unwrap(), vec![t.clone()]);
}

#[test]
fn rejoined_txids_parse_back() {
    let a = "a".repeat(64);
    let b = "0123456789abcdef".repeat(4);
    let raw = [a.as_str(), b.as_str(), a.as_str()].join(",");
    let txids = parse_txids(&raw).unwrap();
    assert_eq!(parse_txids(&txids.join(",")).unwrap(), txids);
}
