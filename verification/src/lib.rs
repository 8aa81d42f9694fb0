//! A load balancer that hands each incoming request to one of a fixed set
//! of worker hosts, chosen by a switchable strategy (round robin, random,
//! fastest server, fewest connections), together with the logic of the
//! workers' health-check endpoint.

pub mod balancer;
pub mod performance;
pub mod routing;
pub mod strategy;
pub mod utils;
pub mod worker;

pub use balancer::LoadBalancer;
pub use strategy::{FastestServerStrategy, RandomStrategy, RoundRobinStrategy};
