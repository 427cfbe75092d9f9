use api::details::{DetailValue, Details};

#[test]
fn the_first_field_of_a_name_answers() {
    let d = Details::new()
        .with("a", DetailValue::Number(1))
        .with("b", DetailValue::Flag(true))
        .with("a", DetailValue::Number(2));
    assert_eq!(d.get("a"), Some(&DetailValue::Number(1)));
    assert_eq!(d.get("b"), Some(&DetailValue::Flag(true)));
    assert_eq!(d.get("c"), None);
    assert_eq!(d.fields.len(), 3);
}
