//! The strategies that pick the worker for the next request.

pub mod fastest_server;
pub mod fewest_connections;
pub mod random;
pub mod round_robin;
pub mod strategy;
pub mod strategy_manager;

pub use fastest_server::FastestServerStrategy;
pub use fewest_connections::FewestConnectionsStrategy;
pub use random::RandomStrategy;
pub use round_robin::RoundRobinStrategy;
pub use strategy::{Strategy, StrategyNames, UnknownStrategy};
pub use strategy_manager::StrategyManager;
