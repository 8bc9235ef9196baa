use llm_gateway::error::RoutingError;
use llm_gateway::failover::{connect_outcome, FailoverStep, FailoverStrategy, HealthChecker};

#[test]
fn health_checker_defaults_to_healthy_and_remembers() {
    let mut h = HealthChecker::new();
    assert!(h.is_healthy("x:1"));
    h.record_failure("x:1");
    assert!(!h.is_healthy("x:1"));
    assert!(h.is_healthy("y:2"));
    h.record_success("x:1");
    assert!(h.is_healthy("x:1"));
    let d = HealthChecker::default();
    assert!(d.is_healthy("x:1"));
}

#[test]
fn connect_outcome_builds_backend_or_error() {
    let ok = connect_outcome("127.0.0.1:18002", true).unwrap();
    assert_eq!(ok.addr, "127.0.0.1:18002");
    assert!(ok.healthy);
    assert_eq!(ok.failure_count, 0);
    match connect_outcome("127.0.0.1:18001", false) {
        Err(RoutingError::BackendConnectionFailed(a)) => assert_eq!(a, "127.0.0.1:18001"),
        other => panic!("unexpected {other:?}"),
    }
}

/// Runs a selection in which the backends at the given positions connect.
fn run(f: &mut FailoverStrategy, connects: &[bool]) -> Result<String, RoutingError> {
    let mut step = f.begin_selection();
    loop {
        match step {
            FailoverStep::Connect { index, addr } => {
                let attempt = connect_outcome(&addr, connects[index]);
                step = f.after_attempt(index, attempt);
            }
            FailoverStep::Done(r) => return r.map(|b| b.addr),
        }
    }
}

#[test]
fn failover_switches_to_next_backend() {
    let mut f = FailoverStrategy::new(vec!["a:1".to_string(), "b:2".to_string()]);
    assert_eq!(run(&mut f, &[false, true]).unwrap(), "b:2");
    assert!(!f.is_healthy("a:1"));
    assert!(f.is_healthy("b:2"));
    // The failed backend is not tried again.
    assert_eq!(run(&mut f, &[true, true]).unwrap(), "b:2");
}

#[test]
fn failover_selects_first_when_it_connects() {
    let mut f = FailoverStrategy::new(vec!["a:1".to_string(), "b:2".to_string()]);
    assert_eq!(run(&mut f, &[true, true]).unwrap(), "a:1");
    assert!(f.is_healthy("a:1"));
}

#[test]
fn failover_exhausted_gives_no_available_backend() {
    let mut f = FailoverStrategy::new(vec!["a:1".to_string(), "b:2".to_string()]);
    assert!(matches!(run(&mut f, &[false, false]), Err(RoutingError::NoAvailableBackend)));
    assert!(!f.is_healthy("a:1"));
    assert!(!f.is_healthy("b:2"));
    assert!(matches!(f.begin_selection(), FailoverStep::Done(Err(RoutingError::NoAvailableBackend))));
    let empty = FailoverStrategy::new(Vec::new());
    assert_eq!(empty.len(), 0);
    assert!(matches!(empty.begin_selection(), FailoverStep::Done(Err(RoutingError::NoAvailableBackend))));
}

#[test]
fn routing_error_messages() {
    assert_eq!(RoutingError::NoAvailableBackend.message(), "No available backend");
    assert_eq!(
        RoutingError::BackendConnectionFailed("a:1".to_string()).message(),
        "Backend connection failed: a:1"
    );
    assert_eq!(
        RoutingError::HealthCheckFailed("a:1".to_string()).message(),
        "Backend health check failed: a:1"
    );
}

#[test]
fn health_is_the_last_outcome_named() {
    let mut h = HealthChecker::new();
    h.record_failure("a:1");
    h.record_success("b:2");
    h.record_success("a:1");
    h.record_failure("b:2");
    h.record_failure("c:3");
    h.record_success("c:3");
    assert!(h.is_healthy("a:1"));
    assert!(!h.is_healthy("b:2"));
    assert!(h.is_healthy("c:3"));
    assert!(h.is_healthy("d:4"));
}

#[test]
fn recorded_failure_keeps_later_selections_off_a_backend() {
    let mut f = FailoverStrategy::new(vec!["a:1".to_string(), "b:2".to_string()]);
    f.record_failure("a:1");
    assert!(!f.is_healthy("a:1"));
    assert_eq!(run(&mut f, &[true, true]).unwrap(), "b:2");
}

#[test]
fn success_on_a_backend_marked_unhealthy_meanwhile() {
    let mut f = FailoverStrategy::new(vec!["a:1".to_string(), "b:2".to_string()]);
    let step = f.begin_selection();
    let (index, addr) = match step {
        FailoverStep::Connect { index, addr } => (index, addr),
        FailoverStep::Done(_) => panic!("a connection step was expected"),
    };
    // Another request records a failure of the same backend meanwhile.
    f.record_failure("a:1");
    match f.after_attempt(index, connect_outcome(&addr, true)) {
        FailoverStep::Done(Ok(b)) => assert_eq!(b.addr, "a:1"),
        _ => panic!("the connected backend must be selected"),
    }
    assert!(!f.is_healthy("a:1"));
}
