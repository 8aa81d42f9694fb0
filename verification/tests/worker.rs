use load_balancer::worker::{
    health_check_delay_ms, HealthCheckDelayError,
    health_check, health_check_message, parse_health_check_delay_ms, worker_number_or_default,
    MAX_HEALTH_CHECK_DELAY_MS,
};

#[test]
fn delays_are_read_as_rust_reads_u64() {
    assert_eq!(parse_health_check_delay_ms("10"), Some(10));
    assert_eq!(parse_health_check_delay_ms("+7"), Some(7));
    assert_eq!(parse_health_check_delay_ms("007"), Some(7));
    assert_eq!(parse_health_check_delay_ms("18446744073709551615"), Some(u64::MAX));
    assert_eq!(parse_health_check_delay_ms("18446744073709551616"), None);
    assert_eq!(parse_health_check_delay_ms("99999999999999999999x"), None);
    assert_eq!(parse_health_check_delay_ms(""), None);
    assert_eq!(parse_health_check_delay_ms("+"), None);
    assert_eq!(parse_health_check_delay_ms("-1"), None);
    assert_eq!(parse_health_check_delay_ms(" 1"), None);
    assert_eq!(parse_health_check_delay_ms("1_000"), None);
    assert_eq!(parse_health_check_delay_ms("١"), None);
    for s in ["0", "12", "+3", "4x", "", "++1", "00", "65536"] {
        assert_eq!(parse_health_check_delay_ms(s), s.parse::<u64>().ok());
    }
}

#[test]
fn health_check_message_reports_worker_and_delay() {
    assert_eq!(
        health_check_message("3001", 42),
        "worker: 3001, (not implemented) delay: 42"
    );
    assert_eq!(
        health_check_message("3000", 0),
        "worker: 3000, (not implemented) delay: 0"
    );
}

#[test]
fn health_check_reports_a_delay_of_at_most_one_hundred() {
    for _ in 0..50 {
        let m = health_check("3002");
        let prefix = "worker: 3002, (not implemented) delay: ";
        assert!(m.starts_with(prefix));
        let d: u64 = m[prefix.len()..].parse().unwrap();
        assert!(d <= MAX_HEALTH_CHECK_DELAY_MS);
        assert_eq!(MAX_HEALTH_CHECK_DELAY_MS, 100);
    }
}

#[test]
fn worker_number_defaults_to_3000() {
    assert_eq!(worker_number_or_default(None), "3000");
    assert_eq!(worker_number_or_default(Some("3002".to_string())), "3002");
}

#[test]
fn health_check_delays_vary() {
    let prefix = "worker: 1, (not implemented) delay: ";
    let delays: std::collections::HashSet<u64> = (0..300)
        .map(|_| health_check("1")[prefix.len()..].parse::<u64>().unwrap())
        .collect();
    assert!(delays.len() > 1);
}

#[test]
fn configured_delay_is_read_or_refused() {
    assert_eq!(health_check_delay_ms(Some("12".to_string())), Ok(12));
    assert_eq!(health_check_delay_ms(None), Err(HealthCheckDelayError::Unset));
    assert_eq!(
        health_check_delay_ms(Some("12ms".to_string())),
        Err(HealthCheckDelayError::Unparsable)
    );
}
