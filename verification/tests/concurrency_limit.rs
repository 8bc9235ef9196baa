use llm_gateway::concurrency::{ConcurrencyContext, ConcurrencyLimitLayer};

#[test]
fn limit_of_two_refuses_third() {
    let mut layer = ConcurrencyLimitLayer::new(2);
    let a = layer.acquire("model-name");
    let b = layer.acquire("model-name");
    let c = layer.acquire("model-name");
    assert!(a.is_ok());
    assert!(b.is_ok());
    assert_eq!(c.err(), Some("Concurrency limit exceeded"));
}

#[test]
fn eight_requests_under_limit_five() {
    let mut layer = ConcurrencyLimitLayer::new(5);
    let results: Vec<bool> = (0..8).map(|_| layer.acquire("test").is_ok()).collect();
    assert_eq!(results.iter().filter(|ok| **ok).count(), 5);
    assert_eq!(results.iter().filter(|ok| !**ok).count(), 3);
    assert_eq!(layer.available_permits("test"), 0);
}

#[test]
fn release_frees_a_permit() {
    let mut layer = ConcurrencyLimitLayer::new(1);
    let p = layer.acquire("m").unwrap();
    assert_eq!(p.model(), "m");
    assert!(layer.acquire("m").is_err());
    let ctx = ConcurrencyContext { permit: Some(p) };
    layer.release(ctx.permit.unwrap());
    assert_eq!(layer.available_permits("m"), 1);
    assert!(layer.acquire("m").is_ok());
}

#[test]
fn models_are_limited_separately() {
    let mut layer = ConcurrencyLimitLayer::default();
    assert_eq!(layer.available_permits("x"), 10);
    for _ in 0..10 {
        assert!(layer.acquire("x").is_ok());
    }
    assert!(layer.acquire("x").is_err());
    assert!(layer.acquire("y").is_ok());
    assert_eq!(layer.available_permits("y"), 9);
}
