//! Ingestion edge of a telemetry pipeline: listen-address resolution,
//! coordinated shutdown, the per-connection decode/forward worker and its
//! backpressured sink, the accept loop's decisions, the host metrics
//! source's selection and tagging rules, component registry lookups, and
//! lookup paths into events.

pub mod listen_addr;
pub mod shutdown;
pub mod worker;
pub mod sink;
pub mod host_metrics;
pub mod accept;
pub mod component;
pub mod lookup;
