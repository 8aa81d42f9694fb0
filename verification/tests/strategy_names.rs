use load_balancer::strategy::{StrategyNames, UnknownStrategy};

#[test]
fn names_are_written_as_variants() {
    assert_eq!(StrategyNames::RoundRobin.to_string(), "RoundRobin");
    assert_eq!(StrategyNames::FastestServer.to_string(), "FastestServer");
    assert_eq!(StrategyNames::Random.to_string(), "Random");
    assert_eq!(StrategyNames::FewestConnections.to_string(), "FewestConnections");
}

#[test]
fn names_are_read_ignoring_case() {
    assert_eq!(StrategyNames::from_str("RoundRobin"), Ok(StrategyNames::RoundRobin));
    assert_eq!(StrategyNames::from_str("roundrobin"), Ok(StrategyNames::RoundRobin));
    assert_eq!(StrategyNames::from_str("ROUNDROBIN"), Ok(StrategyNames::RoundRobin));
    assert_eq!(StrategyNames::from_str("fastestServer"), Ok(StrategyNames::FastestServer));
    assert_eq!(StrategyNames::from_str("RANDOM"), Ok(StrategyNames::Random));
    assert_eq!(StrategyNames::from_str("fewestconnections"), Ok(StrategyNames::FewestConnections));
}

#[test]
fn unknown_names_are_refused() {
    assert_eq!(StrategyNames::from_str(""), Err(UnknownStrategy));
    assert_eq!(StrategyNames::from_str("round robin"), Err(UnknownStrategy));
    assert_eq!(StrategyNames::from_str("RoundRobin "), Err(UnknownStrategy));
    assert_eq!(StrategyNames::from_str("Rando"), Err(UnknownStrategy));
    assert_eq!(StrategyNames::from_str("fastest_server"), Err(UnknownStrategy));
}

#[test]
fn reading_a_written_name_gives_the_strategy_back() {
    for s in [
        StrategyNames::RoundRobin,
        StrategyNames::FastestServer,
        StrategyNames::Random,
        StrategyNames::FewestConnections,
    ] {
        assert_eq!(StrategyNames::from_str(s.to_string().as_str()), Ok(s));
    }
}
