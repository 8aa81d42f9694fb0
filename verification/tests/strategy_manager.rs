use load_balancer::performance::metrics::PerformanceMetrics;
use load_balancer::strategy::{StrategyManager, StrategyNames};

fn hosts(names: &[&str]) -> Vec<String> {
    names.iter().map(|s| s.to_string()).collect()
}

#[test]
fn default_strategy_is_fastest_server() {
    let m = StrategyManager::new(hosts(&["a"]), None);
    assert_eq!(m.get_strategy(), StrategyNames::FastestServer);
}

#[test]
fn given_strategy_is_used() {
    let m = StrategyManager::new(hosts(&["a"]), Some(StrategyNames::Random));
    assert_eq!(m.get_strategy(), StrategyNames::Random);
}

#[test]
fn get_strategy_reads_what_set_strategy_wrote() {
    let mut m = StrategyManager::new(hosts(&["a"]), None);
    for s in [
        StrategyNames::RoundRobin,
        StrategyNames::FastestServer,
        StrategyNames::Random,
        StrategyNames::FewestConnections,
    ] {
        m.set_strategy(s);
        assert_eq!(m.get_strategy(), s);
    }
}

#[test]
fn manager_serves_through_the_strategy_in_use() {
    let metrics = PerformanceMetrics::new(hosts(&["x", "y"]));
    let mut m = StrategyManager::new(hosts(&["a", "b"]), Some(StrategyNames::RoundRobin));
    assert_eq!(m.get_worker(&metrics), Some("a".to_string()));
    assert_eq!(m.get_worker(&metrics), Some("b".to_string()));
    m.set_strategy(StrategyNames::FastestServer);
    assert_eq!(m.get_worker(&metrics), Some("x".to_string()));
    m.set_strategy(StrategyNames::FewestConnections);
    assert_eq!(m.get_worker(&metrics), None);
    // Round robin resumes where it stopped.
    m.set_strategy(StrategyNames::RoundRobin);
    assert_eq!(m.get_worker(&metrics), Some("a".to_string()));
    m.set_strategy(StrategyNames::Random);
    let w = m.get_worker(&metrics).expect("a host");
    assert!(w == "a" || w == "b");
}

#[test]
fn strategy_is_the_last_one_set_or_the_default() {
    let metrics = PerformanceMetrics::new(hosts(&["x"]));
    let mut m = StrategyManager::new(hosts(&["a", "b"]), Some(StrategyNames::RoundRobin));
    m.get_worker(&metrics);
    m.get_worker(&metrics);
    assert_eq!(m.get_strategy(), StrategyNames::RoundRobin);
    m.set_strategy(StrategyNames::FewestConnections);
    m.get_worker(&metrics);
    m.set_strategy(StrategyNames::Random);
    m.get_worker(&metrics);
    m.get_worker(&metrics);
    assert_eq!(m.get_strategy(), StrategyNames::Random);
    let fresh = StrategyManager::new(hosts(&["a"]), None);
    assert_eq!(fresh.get_strategy(), StrategyNames::FastestServer);
}
