use api::routes::{build, Endpoint};

#[test]
fn data_routes_wait_for_readiness_and_health_does_not() {
    let routes = build();
    assert_eq!(routes.open.endpoints, vec![Endpoint::Health, Endpoint::SystemEvents]);
    assert_eq!(
        routes.gated.endpoints,
        vec![
            Endpoint::FeerateDiagram,
            Endpoint::MempoolTxids,
            Endpoint::MempoolSnapshot,
            Endpoint::Transactions,
            Endpoint::Websocket,
        ]
    );
}

#[test]
fn endpoints_have_their_paths() {
    assert_eq!(Endpoint::Websocket.path(), "/ws");
    assert_eq!(Endpoint::SystemEvents.path(), "/system-events");
    assert_eq!(Endpoint::MempoolGauge.path(), "/mempool/gauges/{metric}");
}
