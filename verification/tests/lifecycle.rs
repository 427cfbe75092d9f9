use api::config::ApiConfig;
use api::details::DetailValue;
use api::lifecycle::{server_started_details, server_stopped_details, ShutdownSignal};

fn text(s: &str) -> DetailValue {
    DetailValue::Text(s.to_string())
}

#[test]
fn shutdown_signal_names_match_the_signal() {
    assert_eq!(ShutdownSignal::Term.name(), "SIGTERM");
    assert_eq!(ShutdownSignal::Int.name(), "SIGINT");
}

#[test]
fn server_started_details_carries_the_build_and_bind() {
    let cfg = ApiConfig { bind: "0.0.0.0:9999".to_string(), ..Default::default() };
    let details = server_started_details("abc123", &cfg);
    assert_eq!(details.get("git_sha"), Some(&text("abc123")));
    assert_eq!(details.get("bind"), Some(&text("0.0.0.0:9999")));
}

#[test]
fn server_stopped_details_carries_signal_and_uptime() {
    let details = server_stopped_details(ShutdownSignal::Int, 123);
    assert_eq!(details.get("signal"), Some(&text("SIGINT")));
    assert_eq!(details.get("uptime_secs"), Some(&DetailValue::Number(123)));
}
