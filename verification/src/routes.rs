//! The HTTP route table: which endpoints the API serves, at which paths, and
//! which of them wait for the service to be ready.
use vstd::prelude::*;

verus! {

/// One HTTP endpoint of the API.
#[derive(Debug, Clone, Copy, PartialEq, Eq)]
pub enum Endpoint {
    /// Websocket streaming cluster deltas.
    ClusterDelta,
    /// Mempool counter series.
    MempoolCounters,
    /// The latest feerate diagram.
    FeerateDiagram,
    /// One gauge metric's series.
    MempoolGauge,
    /// Startup progress.
    Health,
    /// The live mempool txid set.
    MempoolTxids,
    /// One snapshot metric's series.
    MempoolSnapshot,
    /// The system event log.
    SystemEvents,
    /// Transaction lookup by txid.
    Transactions,
    /// The multiplexed websocket.
    Websocket,
}

/// The path an endpoint is served at.
pub open spec fn endpoint_path(e: Endpoint) -> Seq<char> {
    match e {
        Endpoint::ClusterDelta => "/clusters/delta"@,
        Endpoint::MempoolCounters => "/mempool/counters"@,
        Endpoint::FeerateDiagram => "/mempool/feerate-diagram"@,
        Endpoint::MempoolGauge => "/mempool/gauges/{metric}"@,
        Endpoint::Health => "/health"@,
        Endpoint::MempoolTxids => "/mempool/txids"@,
        Endpoint::MempoolSnapshot => "/mempool/snapshots/{metric}"@,
        Endpoint::SystemEvents => "/system-events"@,
        Endpoint::Transactions => "/transactions"@,
        Endpoint::Websocket => "/ws"@,
    }
}

impl Endpoint {
    /// The path this endpoint is served at.
    pub fn path(self) -> (path: &'static str)
        ensures
            path@ == endpoint_path(self),
    {
        match self {
            Endpoint::ClusterDelta => "/clusters/delta",
            Endpoint::MempoolCounters => "/mempool/counters",
            Endpoint::FeerateDiagram => "/mempool/feerate-diagram",
            Endpoint::MempoolGauge => "/mempool/gauges/{metric}",
            Endpoint::Health => "/health",
            Endpoint::MempoolTxids => "/mempool/txids",
            Endpoint::MempoolSnapshot => "/mempool/snapshots/{metric}",
            Endpoint::SystemEvents => "/system-events",
            Endpoint::Transactions => "/transactions",
            Endpoint::Websocket => "/ws",
        }
    }
}

/// An ordered list of endpoints to serve.
pub struct RouteTable {
    pub endpoints: Vec<Endpoint>,
}

impl RouteTable {
    /// A table with no routes.
    pub fn new() -> (table: Self)
        ensures
            table.endpoints@ == Seq::<Endpoint>::empty(),
    {
        RouteTable { endpoints: Vec::new() }
    }

    fn with(self, endpoint: Endpoint) -> (table: Self)
        ensures
            table.endpoints@ == self.endpoints@.push(endpoint),
    {
        let mut endpoints = self.endpoints;
        endpoints.push(endpoint);
        RouteTable { endpoints }
    }
}

/// Adds the route of the cluster delta websocket.
pub trait ClusterControllerRouter {
    fn add_cluster_routes(self) -> Self;
}

impl ClusterControllerRouter for RouteTable {
    fn add_cluster_routes(self) -> (table: Self)
        ensures
            table.endpoints@ == self.endpoints@.push(Endpoint::ClusterDelta),
    {
        self.with(Endpoint::ClusterDelta)
    }
}

/// Adds the route of the mempool counter series.
pub trait CountersControllerRouter {
    fn add_counter_routes(self) -> Self;
}

impl CountersControllerRouter for RouteTable {
    fn add_counter_routes(self) -> (table: Self)
        ensures
            table.endpoints@ == self.endpoints@.push(Endpoint::MempoolCounters),
    {
        self.with(Endpoint::MempoolCounters)
    }
}

/// Adds the route of the feerate diagram.
pub trait FeerateDiagramControllerRouter {
    fn add_feerate_diagram_routes(self) -> Self;
}

impl FeerateDiagramControllerRouter for RouteTable {
    fn add_feerate_diagram_routes(self) -> (table: Self)
        ensures
            table.endpoints@ == self.endpoints@.push(Endpoint::FeerateDiagram),
    {
        self.with(Endpoint::FeerateDiagram)
    }
}

/// Adds the route of the gauge metric series.
pub trait GaugesControllerRouter {
    fn add_gauge_routes(self) -> Self;
}

impl GaugesControllerRouter for RouteTable {
    fn add_gauge_routes(self) -> (table: Self)
        ensures
            table.endpoints@ == self.endpoints@.push(Endpoint::MempoolGauge),
    {
        self.with(Endpoint::MempoolGauge)
    }
}

/// Adds the route of the startup report.
pub trait HealthControllerRouter {
    fn add_health_routes(self) -> Self;
}

impl HealthControllerRouter for RouteTable {
    fn add_health_routes(self) -> (table: Self)
        ensures
            table.endpoints@ == self.endpoints@.push(Endpoint::Health),
    {
        self.with(Endpoint::Health)
    }
}

/// Adds the route of the live mempool txids.
pub trait MempoolControllerRouter {
    fn add_mempool_routes(self) -> Self;
}

impl MempoolControllerRouter for RouteTable {
    fn add_mempool_routes(self) -> (table: Self)
        ensures
            table.endpoints@ == self.endpoints@.push(Endpoint::MempoolTxids),
    {
        self.with(Endpoint::MempoolTxids)
    }
}

/// Adds the route of the snapshot metric series.
pub trait SnapshotsControllerRouter {
    fn add_snapshot_routes(self) -> Self;
}

impl SnapshotsControllerRouter for RouteTable {
    fn add_snapshot_routes(self) -> (table: Self)
        ensures
            table.endpoints@ == self.endpoints@.push(Endpoint::MempoolSnapshot),
    {
        self.with(Endpoint::MempoolSnapshot)
    }
}

/// Adds the route of the system event log.
pub trait SystemEventsControllerRouter {
    fn add_system_event_routes(self) -> Self;
}

impl SystemEventsControllerRouter for RouteTable {
    fn add_system_event_routes(self) -> (table: Self)
        ensures
            table.endpoints@ == self.endpoints@.push(Endpoint::SystemEvents),
    {
        self.with(Endpoint::SystemEvents)
    }
}

/// Adds the route of the transaction lookup.
pub trait TransactionsControllerRouter {
    fn add_transaction_routes(self) -> Self;
}

impl TransactionsControllerRouter for RouteTable {
    fn add_transaction_routes(self) -> (table: Self)
        ensures
            table.endpoints@ == self.endpoints@.push(Endpoint::Transactions),
    {
        self.with(Endpoint::Transactions)
    }
}

/// Adds the route of the multiplexed websocket.
pub trait WebsocketControllerRouter {
    fn add_websocket_routes(self) -> Self;
}

impl WebsocketControllerRouter for RouteTable {
    fn add_websocket_routes(self) -> (table: Self)
        ensures
            table.endpoints@ == self.endpoints@.push(Endpoint::Websocket),
    {
        self.with(Endpoint::Websocket)
    }
}

/// The public API's routes: `open` ones are always served, `gated` ones only
/// once bootstrap has finished.
pub struct AppRoutes {
    pub open: RouteTable,
    pub gated: RouteTable,
}

/// Whether an endpoint serves data that is only meaningful once bootstrap is done.
pub open spec fn is_data_endpoint(e: Endpoint) -> bool {
    match e {
        Endpoint::Health | Endpoint::SystemEvents => false,
        _ => true,
    }
}

/// Builds the public API's routes. Data routes are gated on readiness; health and
/// the system event log stay open so the wait itself can be watched.
pub fn build() -> (routes: AppRoutes)
    ensures
        routes.open.endpoints@ == seq![Endpoint::Health, Endpoint::SystemEvents],
        routes.gated.endpoints@ == seq![
            Endpoint::FeerateDiagram,
            Endpoint::MempoolTxids,
            Endpoint::MempoolSnapshot,
            Endpoint::Transactions,
            Endpoint::Websocket,
        ],
        forall|i: int|
            0 <= i < routes.gated.endpoints@.len() ==> is_data_endpoint(
                #[trigger] routes.gated.endpoints@[i],
            ),
        forall|i: int|
            0 <= i < routes.open.endpoints@.len() ==> !is_data_endpoint(
                #[trigger] routes.open.endpoints@[i],
            ),
{
    let gated = RouteTable::new()
        .add_feerate_diagram_routes()
        .add_mempool_routes()
        .add_snapshot_routes()
        .add_transaction_routes()
        .add_websocket_routes();
    let open = RouteTable::new().add_health_routes().add_system_event_routes();
    AppRoutes { open, gated }
}

} // verus!
