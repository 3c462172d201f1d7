//! Uptime and latency monitoring for a hosted status page: the decisions of
//! the polling engine (incident lifecycle, latency reporting, pre-flight
//! lookups), each stated and proved with Verus.

pub mod config;
pub mod instatus;
pub mod lifecycle;
pub mod metrics;
pub mod table;
pub mod velocity;
