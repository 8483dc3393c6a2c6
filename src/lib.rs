//! Verified core of a social-feed enrichment pipeline: identifier handling,
//! the bounded two-namespace cache, batch coalescing, retry and session
//! decisions, the orchestrator's buffer and the secondary aggregator.

pub mod errors;
pub mod ids;
pub mod retry;
pub mod coalescer;
pub mod models;
pub mod cache;
pub mod enricher;
pub mod buffer;
pub mod session;
pub mod stream;
pub mod monitor;
pub mod config;
pub mod metrics;
pub mod pool;
pub mod rotation;
pub mod storage;
pub mod telemetry;
pub mod api;
pub mod lookup;
