use load_balancer::performance::metrics::PerformanceMetrics;
use load_balancer::routing::{route, strategy_change_message, strategy_param, Route, SetStrategyError};
use load_balancer::strategy::{StrategyManager, StrategyNames};
use load_balancer::balancer::ForwardError;
use load_balancer::routing::forwarded_headers;
use load_balancer::LoadBalancer;

fn hosts(names: &[&str]) -> Vec<String> {
    names.iter().map(|s| s.to_string()).collect()
}

fn balancer(strategy: StrategyNames) -> LoadBalancer {
    let list = hosts(&["http://localhost:3000", "http://localhost:3001", "http://localhost:3002"]);
    let manager = StrategyManager::new(list.clone(), Some(strategy));
    LoadBalancer::new(manager, PerformanceMetrics::new(list)).expect("a worker")
}

#[test]
fn a_balancer_needs_a_worker() {
    let manager = StrategyManager::new(Vec::new(), Some(StrategyNames::RoundRobin));
    let r = LoadBalancer::new(manager, PerformanceMetrics::new(Vec::new()));
    assert_eq!(r.err(), Some("No worker hosts provided".to_string()));
    let manager = StrategyManager::new(hosts(&["a"]), Some(StrategyNames::FewestConnections));
    let r = LoadBalancer::new(manager, PerformanceMetrics::new(hosts(&["a"])));
    assert_eq!(r.err(), Some("No worker hosts provided".to_string()));
}

#[test]
fn making_a_balancer_takes_one_turn_of_round_robin() {
    let mut lb = balancer(StrategyNames::RoundRobin);
    let (host, uri) = lb.forward_request(Some("/health-check")).unwrap();
    assert_eq!(host, "http://localhost:3001");
    assert_eq!(uri, "http://localhost:3001/health-check");
    let (host, _) = lb.forward_request(None).unwrap();
    assert_eq!(host, "http://localhost:3002");
    let (host, uri) = lb.forward_request(None).unwrap();
    assert_eq!(host, "http://localhost:3000");
    assert_eq!(uri, "http://localhost:3000");
}

#[test]
fn forwarding_keeps_the_query() {
    let mut lb = balancer(StrategyNames::FastestServer);
    let (host, uri) = lb.forward_request(Some("/a/b?x=1&y=2")).unwrap();
    assert_eq!(host, "http://localhost:3000");
    assert_eq!(uri, "http://localhost:3000/a/b?x=1&y=2");
}

#[test]
fn forwarding_without_a_worker_gives_nothing() {
    let mut lb = balancer(StrategyNames::Random);
    lb.set_strategy(StrategyNames::FewestConnections);
    assert_eq!(lb.forward_request(Some("/")), Err(ForwardError::NoWorker));
}

#[test]
fn set_strategy_from_query_changes_the_strategy() {
    let mut lb = balancer(StrategyNames::Random);
    let r = lb.set_strategy_from_query(Some("strategy=roundrobin"));
    assert_eq!(r, Ok((StrategyNames::Random, StrategyNames::RoundRobin)));
    assert_eq!(lb.get_strategy(), StrategyNames::RoundRobin);
}

#[test]
fn set_strategy_from_query_decodes_escapes() {
    let mut lb = balancer(StrategyNames::Random);
    let r = lb.set_strategy_from_query(Some("str%61tegy=Fewest%43onnections"));
    assert_eq!(r, Ok((StrategyNames::Random, StrategyNames::FewestConnections)));
    let r = lb.set_strategy_from_query(Some("strategy=Fastest+Server"));
    assert_eq!(r, Err(SetStrategyError::UnknownStrategy));
}

#[test]
fn the_last_strategy_parameter_counts() {
    let mut lb = balancer(StrategyNames::Random);
    let r = lb.set_strategy_from_query(Some("strategy=nonsense&other=1&strategy=FastestServer"));
    assert_eq!(r, Ok((StrategyNames::Random, StrategyNames::FastestServer)));
}

#[test]
fn refused_strategy_requests_change_nothing() {
    let mut lb = balancer(StrategyNames::Random);
    assert_eq!(lb.set_strategy_from_query(None), Err(SetStrategyError::MissingQuery));
    assert_eq!(lb.set_strategy_from_query(Some("other=RoundRobin")), Err(SetStrategyError::MissingStrategy));
    assert_eq!(lb.set_strategy_from_query(Some("")), Err(SetStrategyError::MissingStrategy));
    assert_eq!(lb.set_strategy_from_query(Some("strategy=Nope")), Err(SetStrategyError::UnknownStrategy));
    assert_eq!(lb.get_strategy(), StrategyNames::Random);
}

#[test]
fn apply_strategy_params_reads_the_pairs() {
    let mut lb = balancer(StrategyNames::Random);
    let pairs = vec![("strategy".to_string(), "RANDOM".to_string())];
    assert_eq!(lb.apply_strategy_params(&pairs), Ok((StrategyNames::Random, StrategyNames::Random)));
    let pairs = vec![("Strategy".to_string(), "RoundRobin".to_string())];
    assert_eq!(lb.apply_strategy_params(&pairs), Err(SetStrategyError::MissingStrategy));
}

#[test]
fn strategy_param_takes_the_last_one() {
    let pairs = vec![
        ("strategy".to_string(), "a".to_string()),
        ("x".to_string(), "y".to_string()),
        ("strategy".to_string(), "b".to_string()),
    ];
    assert_eq!(strategy_param(&pairs), Some("b".to_string()));
    assert_eq!(strategy_param(&Vec::new()), None);
}

#[test]
fn routes_by_path() {
    assert_eq!(route("/set-strategy"), Route::SetStrategy);
    assert_eq!(route("/set-strategy/"), Route::Forward);
    assert_eq!(route("/health-check"), Route::Forward);
    assert_eq!(route("/"), Route::Forward);
}

#[test]
fn change_message_names_both_strategies() {
    assert_eq!(
        strategy_change_message(StrategyNames::Random, StrategyNames::RoundRobin),
        "original strategy:Random, new strategy:RoundRobin"
    );
}

#[test]
fn forwarding_to_an_address_that_is_no_uri_fails() {
    let list = hosts(&["http://bad host", "http://localhost:3001"]);
    let manager = StrategyManager::new(list.clone(), Some(StrategyNames::RoundRobin));
    // Making the balancer hands out the first host.
    let mut lb = LoadBalancer::new(manager, PerformanceMetrics::new(list)).unwrap();
    let (host, uri) = lb.forward_request(Some("/x")).unwrap();
    assert_eq!(host, "http://localhost:3001");
    assert_eq!(uri, "http://localhost:3001/x");
    assert_eq!(lb.forward_request(Some("/x")), Err(ForwardError::InvalidAddress));
    // The turn was taken all the same.
    assert_eq!(lb.forward_request(None).unwrap().0, "http://localhost:3001");
    assert_eq!(lb.forward_request(Some("/a b")), Err(ForwardError::InvalidAddress));
}

fn header(name: &str, value: &[u8]) -> (String, Vec<u8>) {
    (name.to_string(), value.to_vec())
}

#[test]
fn forwarded_headers_keep_the_last_value_of_each_name() {
    let headers = vec![
        header("accept", b"a"),
        header("host", b"h"),
        header("accept", b"b"),
        header("x-id", &[0xff, 0x01]),
        header("accept", b"c"),
    ];
    let mut out = forwarded_headers(&headers);
    out.sort();
    assert_eq!(
        out,
        vec![header("accept", b"c"), header("host", b"h"), header("x-id", &[0xff, 0x01])]
    );
    assert_eq!(forwarded_headers(&Vec::new()), Vec::new());
}
