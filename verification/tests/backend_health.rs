use llm_gateway::backend::{Backend, BackendManager, HealthCheckConfig};
use std::time::Duration;

fn manager(addrs: &[&str]) -> BackendManager {
    BackendManager::new(addrs.iter().map(|a| a.to_string()).collect())
}

#[test]
fn health_check_config_default_values() {
    let c = HealthCheckConfig::default();
    assert_eq!(c.failure_threshold, 3);
    assert_eq!(c.recovery_threshold, 2);
    assert_eq!(c.check_timeout, Duration::from_secs(5));
}

#[test]
fn new_manager_starts_all_healthy() {
    let m = manager(&["127.0.0.1:18001", "127.0.0.1:18002"]);
    let all = m.get_all_backends();
    assert_eq!(all.len(), 2);
    assert_eq!(all[0].addr, "127.0.0.1:18001");
    assert_eq!(all[1].addr, "127.0.0.1:18002");
    assert!(all.iter().all(|b: &Backend| b.healthy && b.failure_count == 0));
    assert!(m.is_healthy("127.0.0.1:18001"));
    assert_eq!(m.get_failure_count("127.0.0.1:18002"), 0);
}

#[test]
fn unknown_backend_is_unhealthy_with_no_failures() {
    let mut m = manager(&["a:1"]);
    assert!(!m.is_healthy("b:2"));
    assert_eq!(m.get_failure_count("b:2"), 0);
    m.record_failure("b:2");
    m.record_success("b:2");
    assert_eq!(m.get_all_backends().len(), 1);
    assert!(m.is_healthy("a:1"));
}

#[test]
fn backend_turns_unhealthy_once_failures_exceed_threshold() {
    let mut m = manager(&["a:1", "b:2"]);
    for n in 1..=3u32 {
        m.record_failure("a:1");
        assert!(m.is_healthy("a:1"));
        assert_eq!(m.get_failure_count("a:1"), n);
    }
    m.record_failure("a:1");
    assert!(!m.is_healthy("a:1"));
    assert_eq!(m.get_failure_count("a:1"), 4);
    m.record_failure("a:1");
    assert_eq!(m.get_failure_count("a:1"), 5);
    assert!(!m.is_healthy("a:1"));
    assert!(m.is_healthy("b:2"));
    assert_eq!(m.get_failure_count("b:2"), 0);
}

#[test]
fn backend_recovers_after_consecutive_successes() {
    let mut m = manager(&["a:1"]);
    for _ in 0..4 {
        m.record_failure("a:1");
    }
    assert!(!m.is_healthy("a:1"));
    m.record_success("a:1");
    assert_eq!(m.get_failure_count("a:1"), 3);
    assert!(!m.is_healthy("a:1"));
    m.record_success("a:1");
    assert_eq!(m.get_failure_count("a:1"), 2);
    assert!(m.is_healthy("a:1"));
    m.record_failure("a:1");
    assert!(m.is_healthy("a:1"));
    m.record_failure("a:1");
    assert!(!m.is_healthy("a:1"));
}

#[test]
fn a_failure_breaks_the_run_of_successes() {
    let mut m = manager(&["a:1"]);
    for _ in 0..4 {
        m.record_failure("a:1");
    }
    m.record_success("a:1");
    m.record_failure("a:1");
    assert_eq!(m.get_failure_count("a:1"), 4);
    assert!(!m.is_healthy("a:1"));
    m.record_success("a:1");
    assert!(!m.is_healthy("a:1"));
    m.record_success("a:1");
    assert!(m.is_healthy("a:1"));
}

#[test]
fn success_after_failure_restores_count() {
    let mut m = manager(&["a:1"]);
    m.record_failure("a:1");
    m.record_failure("a:1");
    m.record_success("a:1");
    assert_eq!(m.get_failure_count("a:1"), 1);
    assert!(m.is_healthy("a:1"));
}

#[test]
fn healthy_backends_keep_order_and_skip_unhealthy() {
    let mut m = manager(&["a:1", "b:2", "c:3"]);
    for _ in 0..4 {
        m.record_failure("b:2");
    }
    let healthy = m.get_healthy_backends();
    let addrs: Vec<&str> = healthy.iter().map(|b| b.addr.as_str()).collect();
    assert_eq!(addrs, vec!["a:1", "c:3"]);
}

#[test]
fn duplicate_addresses_update_first_only() {
    let mut m = manager(&["a:1", "a:1"]);
    m.record_failure("a:1");
    let all = m.get_all_backends();
    assert_eq!(all[0].failure_count, 1);
    assert_eq!(all[1].failure_count, 0);
}
