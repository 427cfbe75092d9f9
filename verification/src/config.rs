//! Settings of the API service that the library checks.
use crate::text::{decimal, push_decimal};
use vstd::prelude::*;

verus! {

broadcast use vstd::string::group_string_axioms;

/// The gauge sampler's cadence, and the finest resolution a series is served at.
pub const NATIVE_RESOLUTION_SECS: i64 = 60;

/// Default cadence for the `mempool_snapshots` sampler.
pub const DEFAULT_SNAPSHOT_INTERVAL_SECS: u64 = 60;

/// Default capacity of the tx backfill queue.
pub const DEFAULT_TX_BACKFILL_QUEUE_CAPACITY: usize = 100_000;

/// Default `host:port` the HTTP server binds to.
pub open spec fn default_bind() -> Seq<char> {
    "127.0.0.1:3333"@
}

/// Default place of the service data directories.
pub open spec fn default_data_dir() -> Seq<char> {
    "data"@
}

/// API server settings that the service itself reads. Logging, metrics and node
/// settings belong to the crates that use them.
#[derive(Debug)]
pub struct ApiConfig {
    /// `host:port` the HTTP server binds to.
    pub bind: String,
    /// Database connection settings.
    pub database: DatabaseConfig,
    /// Where the disk-usage sampler looks for the service data directories.
    pub data_dir: String,
    /// Seconds between `mempool_snapshots` samples.
    pub snapshot_interval_secs: u64,
    /// Capacity of the tx backfill queue.
    pub tx_backfill_queue_capacity: usize,
}

impl Default for ApiConfig {
    fn default() -> (cfg: Self)
        ensures
            cfg.bind@ == default_bind(),
            cfg.database.url@.len() == 0,
            cfg.data_dir@ == default_data_dir(),
            cfg.snapshot_interval_secs == DEFAULT_SNAPSHOT_INTERVAL_SECS,
            cfg.tx_backfill_queue_capacity == DEFAULT_TX_BACKFILL_QUEUE_CAPACITY,
    {
        ApiConfig {
            bind: "127.0.0.1:3333".to_string(),
            database: DatabaseConfig { url: String::new() },
            data_dir: "data".to_string(),
            snapshot_interval_secs: DEFAULT_SNAPSHOT_INTERVAL_SECS,
            tx_backfill_queue_capacity: DEFAULT_TX_BACKFILL_QUEUE_CAPACITY,
        }
    }
}

/// Postgres connection settings.
#[derive(Debug)]
pub struct DatabaseConfig {
    pub url: String,
}

/// A setting whose value was read but is not acceptable.
#[derive(Debug)]
pub struct InvalidSetting {
    pub key: String,
    pub value: String,
    pub reason: String,
}

/// Why a snapshot interval below the native resolution is refused.
pub open spec fn snapshot_interval_reason() -> Seq<char> {
    "must be >= NATIVE_RESOLUTION_SECS ("@ + decimal(NATIVE_RESOLUTION_SECS as nat) + "s)"@
}

/// Accepts a snapshot interval of at least `NATIVE_RESOLUTION_SECS`: sampling
/// faster than the native resolution would only produce rows the read path
/// folds away.
pub fn check_snapshot_interval(secs: u64) -> (res: Result<u64, InvalidSetting>)
    ensures
        secs >= NATIVE_RESOLUTION_SECS ==> res == Ok::<u64, InvalidSetting>(secs),
        secs < NATIVE_RESOLUTION_SECS ==> (res matches Err(e) && e.key@
            == "SNAPSHOT_INTERVAL_SECS"@ && e.value@ == decimal(secs as nat) && e.reason@
            == snapshot_interval_reason()),
{
    if secs < NATIVE_RESOLUTION_SECS as u64 {
        let key = "SNAPSHOT_INTERVAL_SECS".to_string();
        let mut value = String::new();
        push_decimal(&mut value, secs);
        let mut reason = "must be >= NATIVE_RESOLUTION_SECS (".to_string();
        push_decimal(&mut reason, NATIVE_RESOLUTION_SECS as u64);
        reason.append("s)");
        return Err(InvalidSetting { key, value, reason });
    }
    Ok(secs)
}

} // verus!
