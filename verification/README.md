# api

The verified core of a bitcoin mempool observer's API service, written in Verus.

`src/` holds the service's logic with its contracts and proofs: parsing of the
`txids` parameter and the transaction lookup, the mempool journal and its
replay, startup reconciliation of the persisted mempool against the node,
cluster bookkeeping (delta sets, eviction, confirmation, the upsert round that
merges stored clusters, what a round publishes), the block catch-up steps, block
sync and backfill retry policies, the sampling windows and time-series resolution,
the block gate's clock, websocket subscription bookkeeping, `/proc` parsing, and
the system event details. Each module states, next to its functions, the laws
that hold across calls (a merge lets the later round win, replaying the log
keeps what was last added, reconciliation is exact, backoff never shrinks, ...).

The one call into an outside crate that the logic makes, the wall clock of the
`time` crate, goes through a single trusted wrapper in `src/clock.rs`.

`app/` is the process around the library: settings from the environment, the
HTTP routes and the websocket loops on axum, the `/proc` and disk samplers, and
signal handling. It also holds the loops that feed the library's step
functions (the startup wait, block catch-up, the cluster rounds, backfill, the
reconciler tick, the block gate), written against traits for the store, the node client and the
pub/sub bus. This build links none of those, so nothing implements the traits
yet and `main` does not start those loops. `tests/` exercises the library on
concrete values.
