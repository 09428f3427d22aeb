//! Core logic of a sharded execution platform for tenant workers.
//!
//! The platform follows a blockchain, persists chain events in a per-shard
//! write-ahead log with per-worker cursors, dispatches JSON-RPC requests to
//! workers, authenticates and rate-limits edge traffic, and manages worker
//! lifecycle from cluster resources.  This crate holds the decision and
//! computation logic of those subsystems, verified; the I/O shells around it
//! (database, HTTP, cluster watch, key-management service) live outside.

pub mod codec;
pub mod errors;
pub mod dispatch;
pub mod hexstr;
pub mod kv;
pub mod leader;
pub mod logging;
pub mod network;
pub mod operator;
pub mod proxy;
pub mod ratelimit;
pub mod reconcile;
pub mod signer;
pub mod store;
pub mod strmap;
pub mod strutil;
