//! What the load balancer measures about its workers.

pub mod latency_table;
pub mod metrics;
pub mod ordered;
pub mod ordering;
pub mod queues;

pub use metrics::{ConnectionsCount, Latency, WorkerConnectionsCount, WorkerDelay};
pub use queues::{ConnectionsQueue, DelayQueue};
