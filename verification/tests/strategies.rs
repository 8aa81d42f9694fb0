use load_balancer::performance::metrics::{ConnectionsCount, PerformanceMetrics, WorkerConnectionsCount};
use load_balancer::strategy::fewest_connections::FewestConnectionsStrategy;
use load_balancer::strategy::{FastestServerStrategy, RandomStrategy, RoundRobinStrategy, Strategy};

fn hosts(names: &[&str]) -> Vec<String> {
    names.iter().map(|s| s.to_string()).collect()
}

#[test]
fn round_robin_serves_hosts_in_turn() {
    let metrics = PerformanceMetrics::new(Vec::new());
    let mut rr = RoundRobinStrategy::new(hosts(&["a", "b", "c"]));
    let served: Vec<Option<String>> = (0..7).map(|_| rr.get_worker(&metrics)).collect();
    let expected: Vec<Option<String>> = ["a", "b", "c", "a", "b", "c", "a"]
        .iter()
        .map(|s| Some(s.to_string()))
        .collect();
    assert_eq!(served, expected);
}

#[test]
fn round_robin_with_one_host_always_serves_it() {
    let metrics = PerformanceMetrics::new(Vec::new());
    let mut rr = RoundRobinStrategy::new(hosts(&["only"]));
    for _ in 0..3 {
        assert_eq!(rr.get_worker(&metrics), Some("only".to_string()));
    }
}

#[test]
fn round_robin_without_hosts_serves_nothing() {
    let metrics = PerformanceMetrics::new(Vec::new());
    let mut rr = RoundRobinStrategy::new(Vec::new());
    assert_eq!(rr.get_worker(&metrics), None);
    assert_eq!(rr.get_worker(&metrics), None);
}

#[test]
fn random_serves_one_of_the_hosts() {
    let metrics = PerformanceMetrics::new(Vec::new());
    let list = hosts(&["a", "b", "c"]);
    let mut random = RandomStrategy::new(list.clone());
    for _ in 0..50 {
        let w = random.get_worker(&metrics).expect("a host");
        assert!(list.contains(&w));
    }
}

#[test]
fn random_without_hosts_serves_nothing() {
    let metrics = PerformanceMetrics::new(Vec::new());
    let mut random = RandomStrategy::new(Vec::new());
    assert_eq!(random.get_worker(&metrics), None);
}

#[test]
fn fastest_server_serves_the_front_of_the_delay_queue() {
    let mut metrics = PerformanceMetrics::new(hosts(&["a", "b"]));
    let mut fastest = FastestServerStrategy::new();
    assert_eq!(fastest.get_worker(&metrics), Some("a".to_string()));
    // The front worker gets the average 1 and goes behind "b" (delay 0).
    metrics.update_latency(&"a".to_string(), 10);
    assert_eq!(fastest.get_worker(&metrics), Some("b".to_string()));
}

#[test]
fn fastest_server_without_workers_serves_nothing() {
    let metrics = PerformanceMetrics::new(Vec::new());
    let mut fastest = FastestServerStrategy::new();
    assert_eq!(fastest.get_worker(&metrics), None);
}

#[test]
fn fewest_connections_serves_the_host_with_fewest_connections() {
    let mut metrics = PerformanceMetrics::new(hosts(&["a", "b"]));
    let mut fewest = FewestConnectionsStrategy::new();
    assert_eq!(fewest.get_worker(&metrics), None);
    metrics.connections_count.push(WorkerConnectionsCount {
        host: "a".to_string(),
        connections_count: ConnectionsCount { count: 5 },
    });
    metrics.connections_count.push(WorkerConnectionsCount {
        host: "b".to_string(),
        connections_count: ConnectionsCount { count: 2 },
    });
    metrics.connections_count.push(WorkerConnectionsCount {
        host: "c".to_string(),
        connections_count: ConnectionsCount { count: 9 },
    });
    assert_eq!(fewest.get_worker(&metrics), Some("b".to_string()));
    assert_eq!(
        metrics.connections_count.entries(),
        vec![("b".to_string(), 2), ("a".to_string(), 5), ("c".to_string(), 9)]
    );
}

#[test]
fn random_does_not_always_serve_the_same_host() {
    let metrics = PerformanceMetrics::new(Vec::new());
    let mut random = RandomStrategy::new(hosts(&["a", "b", "c"]));
    let served: std::collections::HashSet<String> =
        (0..300).map(|_| random.get_worker(&metrics).unwrap()).collect();
    assert!(served.len() > 1);
}

#[test]
fn any_n_round_robin_calls_in_a_row_serve_each_host_once() {
    let metrics = PerformanceMetrics::new(Vec::new());
    let list = hosts(&["a", "b", "c", "d"]);
    let mut rr = RoundRobinStrategy::new(list.clone());
    let served: Vec<String> = (0..20).map(|_| rr.get_worker(&metrics).unwrap()).collect();
    for (i, h) in served.iter().enumerate() {
        assert_eq!(h, &list[i % list.len()]);
    }
    for k in 0..=(served.len() - list.len()) {
        let mut window: Vec<String> = served[k..k + list.len()].to_vec();
        window.sort();
        assert_eq!(window, list);
    }
}
