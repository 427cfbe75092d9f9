//! Verified core of the mempool observer's API service: request parsing, retry
//! and backoff policies, mempool and cluster bookkeeping, and the decisions the
//! service's background tasks make between their database and node calls.
pub mod block;
pub mod block_gate;
pub mod bootstrap;
pub mod clock;
pub mod cluster;
pub mod config;
pub mod counter_sample;
pub mod details;
pub mod disk;
pub mod error;
pub mod gauge_sample;
pub mod home;
pub mod journal;
pub mod lifecycle;
pub mod models;
pub mod node_health;
pub mod order;
pub mod process;
pub mod readiness;
pub mod resolution;
pub mod routes;
pub mod seq_sets;
pub mod text;
pub mod transaction;
pub mod transactions;
pub mod tx_backfill;
pub mod ws;
