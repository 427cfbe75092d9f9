use api::details::DetailValue;
use api::node_health::{
    node_connected_details, node_disconnected_details, node_version_changed_details,
    recorded_subversion, version_changed, NodeHealth, Reachability,
};

#[test]
fn only_a_change_of_reachability_is_reported() {
    let mut health = NodeHealth::new();
    assert!(health.transition(Reachability::Reachable));
    assert!(!health.transition(Reachability::Reachable));
    assert!(health.transition(Reachability::Unreachable));
    assert!(!health.transition(Reachability::Unreachable));
    assert!(health.transition(Reachability::Reachable));
    assert_eq!(health.last, Reachability::Reachable);
}

#[test]
fn a_new_subversion_is_a_version_change() {
    assert!(version_changed(&None, &"/Satoshi:27.0.0/".to_string()));
    assert!(version_changed(&Some("/Satoshi:26.0.0/".to_string()), &"/Satoshi:27.0.0/".to_string()));
    assert!(!version_changed(&Some("/Satoshi:27.0.0/".to_string()), &"/Satoshi:27.0.0/".to_string()));
}

#[test]
fn connected_details_carry_counts_and_the_subversion_or_null() {
    let d = node_connected_details(800_000, 800_002, &Some("/Satoshi:27.0.0/".to_string()));
    assert_eq!(d.get("blocks"), Some(&DetailValue::Signed(800_000)));
    assert_eq!(d.get("headers"), Some(&DetailValue::Signed(800_002)));
    assert_eq!(d.get("subversion"), Some(&DetailValue::Text("/Satoshi:27.0.0/".to_string())));
    let d = node_connected_details(1, 1, &None);
    assert_eq!(d.get("subversion"), Some(&DetailValue::Null));
}

#[test]
fn disconnected_details_carry_the_error() {
    let d = node_disconnected_details("connection refused");
    assert_eq!(d.get("error"), Some(&DetailValue::Text("connection refused".to_string())));
}

#[test]
fn version_change_details_round_trip_the_subversion() {
    let d = node_version_changed_details(&None, &"/Satoshi:27.0.0/".to_string(), 270000);
    assert_eq!(d.get("from"), Some(&DetailValue::Null));
    assert_eq!(d.get("version"), Some(&DetailValue::Signed(270000)));
    assert_eq!(recorded_subversion(&d), Some("/Satoshi:27.0.0/".to_string()));
}
