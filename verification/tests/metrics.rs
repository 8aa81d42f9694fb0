use std::collections::VecDeque;

use load_balancer::performance::metrics::{
    ConnectionsCount, Latency, LatencyWorkers, PerformanceMetrics, WorkerConnectionsCount,
    WorkerDelay,
};
use load_balancer::utils::MAX_ALLOWABLE_LATENCIES_STORED_PER_WORKER;

fn hosts(names: &[&str]) -> Vec<String> {
    names.iter().map(|s| s.to_string()).collect()
}

fn history(m: &PerformanceMetrics, host: &str) -> Option<Vec<u128>> {
    m.latency_workers
        .worker_latencies
        .get(&host.to_string())
        .map(|q: &VecDeque<u128>| q.iter().copied().collect())
}

#[test]
fn latency_workers_start_with_zero_delays_and_no_history() {
    let lw = LatencyWorkers::new(hosts(&["a", "b", "c"]));
    assert_eq!(
        lw.workers.entries(),
        vec![("a".to_string(), 0), ("b".to_string(), 0), ("c".to_string(), 0)]
    );
    assert_eq!(lw.worker_latencies.get(&"a".to_string()), None);
}

#[test]
fn new_metrics_have_no_connection_counts() {
    let m = PerformanceMetrics::new(hosts(&["a"]));
    assert_eq!(m.connections_count.len(), 0);
    assert_eq!(m.latency_workers.workers.len(), 1);
}

#[test]
fn first_sample_of_a_host_records_one() {
    let mut m = PerformanceMetrics::new(hosts(&["a", "b"]));
    m.update_latency(&"a".to_string(), 50);
    assert_eq!(history(&m, "a"), Some(vec![1]));
    assert_eq!(history(&m, "b"), None);
    assert_eq!(
        m.latency_workers.workers.entries(),
        vec![("b".to_string(), 0), ("a".to_string(), 1)]
    );
}

#[test]
fn later_samples_record_sample_and_average() {
    let mut m = PerformanceMetrics::new(hosts(&["a", "b"]));
    m.update_latency(&"a".to_string(), 50);
    m.update_latency(&"a".to_string(), 50);
    // [50, 1] has mean 25 (rounded down), which goes in front.
    assert_eq!(history(&m, "a"), Some(vec![25, 50, 1]));
    // The front worker was "b" (delay 0); it now has delay 25.
    assert_eq!(
        m.latency_workers.workers.entries(),
        vec![("a".to_string(), 1), ("b".to_string(), 25)]
    );
    m.update_latency(&"a".to_string(), 4);
    // [4, 25, 50, 1] sums to 80, mean 20.
    assert_eq!(history(&m, "a"), Some(vec![20, 4, 25, 50, 1]));
    assert_eq!(
        m.latency_workers.workers.entries(),
        vec![("a".to_string(), 20), ("b".to_string(), 25)]
    );
}

#[test]
fn long_histories_keep_only_the_newest_entries() {
    let mut m = PerformanceMetrics::new(hosts(&["a"]));
    let h = "a".to_string();
    for _ in 0..20 {
        m.update_latency(&h, 10);
    }
    let q = history(&m, "a").unwrap();
    assert!(q.len() <= MAX_ALLOWABLE_LATENCIES_STORED_PER_WORKER + 2);
    assert_eq!(q.len(), MAX_ALLOWABLE_LATENCIES_STORED_PER_WORKER + 2);
}

#[test]
fn trimming_drops_the_oldest_entries() {
    let mut m = PerformanceMetrics::new(hosts(&["a"]));
    let h = "a".to_string();
    m.update_latency(&h, 0); // [1]
    let mut expected: Vec<u128> = vec![1];
    for i in 0..10u128 {
        m.update_latency(&h, i);
        let mut kept: Vec<u128> = expected.clone();
        kept.truncate(MAX_ALLOWABLE_LATENCIES_STORED_PER_WORKER);
        let mut with: Vec<u128> = vec![i];
        with.extend(kept);
        let avg = with.iter().sum::<u128>() / with.len() as u128;
        expected = vec![avg];
        expected.extend(with);
        assert_eq!(history(&m, "a"), Some(expected.clone()));
    }
}

#[test]
fn update_without_workers_changes_no_delay() {
    let mut m = PerformanceMetrics::new(Vec::new());
    m.update_latency(&"z".to_string(), 7);
    assert_eq!(m.latency_workers.workers.len(), 0);
    assert_eq!(history(&m, "z"), Some(vec![1]));
}

#[test]
fn equal_delays_keep_their_order() {
    let mut m = PerformanceMetrics::new(hosts(&["a", "b", "c"]));
    m.update_latency(&"q".to_string(), 3);
    // "a" gets delay 1 and goes after "b" and "c".
    assert_eq!(
        m.latency_workers.workers.entries(),
        vec![("b".to_string(), 0), ("c".to_string(), 0), ("a".to_string(), 1)]
    );
}

#[test]
fn values_are_shown_as_their_numbers() {
    assert_eq!(Latency { ms: 1234 }.to_string(), "1234");
    assert_eq!(ConnectionsCount { count: 0 }.to_string(), "0");
    let w = WorkerDelay { host: "h:1".to_string(), delay_ms: 340282366920938463463374607431768211455 };
    assert_eq!(w.to_string(), "host:h:1, delay:340282366920938463463374607431768211455");
    let c = WorkerConnectionsCount {
        host: "h".to_string(),
        connections_count: ConnectionsCount { count: 42 },
    };
    assert_eq!(c.to_string(), "host:h, connections_count:42");
}

#[test]
fn workers_compare_by_delay_alone() {
    let a = WorkerDelay { host: "a".to_string(), delay_ms: 3 };
    let b = WorkerDelay { host: "b".to_string(), delay_ms: 5 };
    let c = WorkerDelay { host: "c".to_string(), delay_ms: 3 };
    assert!(a < b);
    assert_eq!(a.partial_cmp(&c), Some(std::cmp::Ordering::Equal));
    assert!(a != c);
    let x = WorkerConnectionsCount { host: "x".to_string(), connections_count: ConnectionsCount { count: 9 } };
    let y = WorkerConnectionsCount { host: "y".to_string(), connections_count: ConnectionsCount { count: 1 } };
    assert!(x > y);
    assert_eq!(a.cmp(&b), std::cmp::Ordering::Less);
    assert_eq!(b.cmp(&a), std::cmp::Ordering::Greater);
    assert_eq!(a.cmp(&c), std::cmp::Ordering::Equal);
    assert_eq!(x.cmp(&y), std::cmp::Ordering::Greater);
}
