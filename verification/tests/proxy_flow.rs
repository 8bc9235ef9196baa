use llm_gateway::failover::{FailoverStep, FailoverStrategy};
use llm_gateway::backend::{Backend, BackendManager};
use llm_gateway::chain::ChainExecutor;
use llm_gateway::concurrency::ConcurrencyLimitLayer;
use llm_gateway::error::RoutingError;
use llm_gateway::protocol::{ConverterKind, Protocol, ProtocolConversionMiddleware};
use llm_gateway::proxy::{downstream_body, model_or_default, note_response_body, LlmGatewayProxy, RequestBodyDecision};
use llm_gateway::streaming::{assemble_output, message_outcome, MessageOutcome};

fn gateway(limit: usize) -> LlmGatewayProxy<()> {
    LlmGatewayProxy::new(
        BackendManager::new(vec!["127.0.0.1:18001".to_string(), "127.0.0.1:18002".to_string()]),
        ConcurrencyLimitLayer::new(limit),
        ChainExecutor::new(vec![()]),
        ProtocolConversionMiddleware::new(),
    )
}

fn backend(addr: &str) -> Backend {
    Backend { addr: addr.to_string(), healthy: true, failure_count: 0 }
}

#[test]
fn extract_model_reads_json_field() {
    let g = gateway(1);
    let body = br#"{"model":"qwen3.5-35b","messages":[]}"#;
    assert_eq!(g.extract_model(Some(&body[..])), "qwen3.5-35b");
    assert_eq!(g.extract_model(Some(&b"not json"[..])), "default");
    assert_eq!(g.extract_model(Some(&br#"{"model":42}"#[..])), "default");
    assert_eq!(g.extract_model(Some(&br#"{"other":"x"}"#[..])), "default");
    assert_eq!(g.extract_model(None), "default");
}

#[test]
fn model_or_default_values() {
    assert_eq!(model_or_default(Some("gpt-4".to_string())), "gpt-4");
    assert_eq!(model_or_default(None), "default");
}

#[test]
fn new_ctx_is_empty() {
    let g = gateway(1);
    let c = g.new_ctx();
    assert!(c.selected_backend.is_none());
    assert!(c.permit.is_none());
    assert!(c.path.is_empty());
    assert!(c.model.is_empty());
    assert!(c.streaming_transform.is_none());
    assert!(!c.body_started);
}

#[test]
fn request_over_limit_is_rejected() {
    let mut g = gateway(1);
    let body = br#"{"model":"test"}"#;
    let mut first = g.new_ctx();
    let d1 = g.request_body_filter(&mut first, "/v1/chat/completions".to_string(), Some(&body[..]));
    assert_eq!(d1, RequestBodyDecision::Continue);
    assert_eq!(first.model, "test");
    assert_eq!(first.path, "/v1/chat/completions");
    assert!(first.permit.is_some());
    let mut second = g.new_ctx();
    let d2 = g.request_body_filter(&mut second, "/v1/chat/completions".to_string(), Some(&body[..]));
    assert_eq!(d2, RequestBodyDecision::Reject);
    assert!(second.permit.is_none());
    // Later chunks of the first request change nothing.
    let d3 = g.request_body_filter(&mut first, "/v1/chat/completions".to_string(), Some(&body[..]));
    assert_eq!(d3, RequestBodyDecision::Continue);
    g.logging(&mut first, false);
    assert!(first.permit.is_none());
    assert_eq!(g.concurrency_layer().available_permits("test"), 1);
    let mut third = g.new_ctx();
    assert_eq!(
        g.request_body_filter(&mut third, "/".to_string(), Some(&body[..])),
        RequestBodyDecision::Continue
    );
}

#[test]
fn no_body_means_no_permit() {
    let mut g = gateway(1);
    let mut c = g.new_ctx();
    assert_eq!(g.request_body_filter(&mut c, "/x".to_string(), None), RequestBodyDecision::Continue);
    assert!(c.model.is_empty());
    assert!(c.permit.is_none());
}

#[test]
fn routing_context_and_peer() {
    let g = gateway(1);
    let mut c = g.new_ctx();
    c.model = "m".to_string();
    c.path = "/p".to_string();
    let r = g.routing_context(&c);
    assert_eq!((r.model.as_str(), r.path.as_str(), r.target_protocol.as_str()), ("m", "/p", "openai"));
    assert_eq!(g.upstream_peer(&mut c, Ok(backend("127.0.0.1:18002"))), Some("127.0.0.1:18002".to_string()));
    assert_eq!(c.selected_backend.as_ref().unwrap().addr, "127.0.0.1:18002");
    let mut d = g.new_ctx();
    assert_eq!(g.upstream_peer(&mut d, Err(RoutingError::NoAvailableBackend)), None);
    assert!(d.selected_backend.is_none());
}

#[test]
fn logging_records_backend_health() {
    let mut g = gateway(1);
    let mut c = g.new_ctx();
    g.upstream_peer(&mut c, Ok(backend("127.0.0.1:18001")));
    for _ in 0..3 {
        g.logging(&mut c, true);
    }
    assert!(g.backend_manager().is_healthy("127.0.0.1:18001"));
    g.logging(&mut c, true);
    assert!(!g.backend_manager().is_healthy("127.0.0.1:18001"));
    assert_eq!(g.backend_manager().get_failure_count("127.0.0.1:18001"), 4);
    g.logging(&mut c, false);
    assert_eq!(g.backend_manager().get_failure_count("127.0.0.1:18001"), 3);
    assert!(g.backend_manager().is_healthy("127.0.0.1:18002"));
}

#[test]
fn source_protocol_follows_backend_address() {
    let g = gateway(1);
    let mut c = g.new_ctx();
    assert_eq!(g.detect_source_protocol(&c), Protocol::OpenAI);
    c.selected_backend = Some(backend("anthropic.local:443"));
    assert_eq!(g.detect_source_protocol(&c), Protocol::Anthropic);
    c.selected_backend = Some(backend("127.0.0.1:18003"));
    assert_eq!(g.detect_source_protocol(&c), Protocol::OpenAI);
}

#[test]
fn server_error_is_recorded_once() {
    let mut g = gateway(1);
    let mut c = g.new_ctx();
    g.upstream_peer(&mut c, Ok(backend("127.0.0.1:18001")));
    assert!(g.upstream_response_filter(&mut c, 503));
    assert!(c.server_error_recorded);
    assert_eq!(g.backend_manager().get_failure_count("127.0.0.1:18001"), 1);
    assert!(g.upstream_response_filter(&mut c, 500));
    assert_eq!(g.backend_manager().get_failure_count("127.0.0.1:18001"), 1);
    // The request is not credited again at its end.
    g.logging(&mut c, false);
    assert_eq!(g.backend_manager().get_failure_count("127.0.0.1:18001"), 1);
    let mut d = g.new_ctx();
    g.upstream_peer(&mut d, Ok(backend("127.0.0.1:18002")));
    assert!(!g.upstream_response_filter(&mut d, 200));
    assert!(!d.server_error_recorded);
    g.logging(&mut d, false);
    assert_eq!(g.backend_manager().get_failure_count("127.0.0.1:18002"), 0);
}

#[test]
fn response_transform_and_server_errors() {
    let mut g = gateway(1);
    let mut c = g.new_ctx();
    assert!(!g.upstream_response_filter(&mut c, 500));
    let t = c.streaming_transform.as_ref().unwrap();
    assert_eq!(t.converter, Some(ConverterKind::OpenaiToAnthropic));
    assert_eq!(t.source_protocol, "openai");
    assert_eq!(t.target_protocol, "anthropic");
    c.selected_backend = Some(backend("my-anthropic:1"));
    assert!(g.upstream_response_filter(&mut c, 502));
    assert!(!g.upstream_response_filter(&mut c, 200));
    let t = c.streaming_transform.as_ref().unwrap();
    assert_eq!(t.converter, None);
    assert!(t.is_passthrough());
    assert_eq!(t.source_protocol, "anthropic");
    assert_eq!(t.target_protocol, "anthropic");
}

#[test]
fn response_body_bookkeeping() {
    let mut g = gateway(1);
    let mut c = g.new_ctx();
    assert!(!note_response_body(&mut c, false));
    assert!(!c.body_started);
    g.upstream_response_filter(&mut c, 200);
    assert!(note_response_body(&mut c, true));
    assert!(c.body_started);
    assert!(note_response_body(&mut c, false));
    assert!(c.body_started);
    assert_eq!(downstream_body(Vec::new()), None);
    assert_eq!(downstream_body(b"data: x\n\n".to_vec()), Some(b"data: x\n\n".to_vec()));
}

#[test]
fn assemble_output_concatenates_in_order() {
    let outcomes = vec![
        MessageOutcome::Emitted(vec![b"event: a\n".to_vec(), b"data: 1\n\n".to_vec()]),
        MessageOutcome::Dropped,
        MessageOutcome::Emitted(vec![]),
        MessageOutcome::Emitted(vec![b"data: [DONE]\n\n".to_vec()]),
    ];
    assert_eq!(assemble_output(&outcomes), b"event: a\ndata: 1\n\ndata: [DONE]\n\n".to_vec());
    assert!(assemble_output(&Vec::new()).is_empty());
}

#[test]
fn message_outcome_cases() {
    assert!(matches!(
        message_outcome(None, b"data: a\n\n".to_vec()),
        MessageOutcome::Emitted(p) if p == vec![b"data: a\n\n".to_vec()]
    ));
    assert!(matches!(
        message_outcome(Some(Ok(vec![b"x".to_vec(), b"y".to_vec()])), b"data: a\n\n".to_vec()),
        MessageOutcome::Emitted(p) if p == vec![b"x".to_vec(), b"y".to_vec()]
    ));
    assert!(matches!(message_outcome(Some(Err(())), b"data: a\n\n".to_vec()), MessageOutcome::Dropped));
}

#[test]
fn release_permit_returns_it() {
    let mut g = gateway(1);
    let body = br#"{"model":"m"}"#;
    let mut c = g.new_ctx();
    g.request_body_filter(&mut c, "/".to_string(), Some(&body[..]));
    assert_eq!(g.concurrency_layer().available_permits("m"), 0);
    g.release_permit(&mut c);
    assert!(c.permit.is_none());
    assert_eq!(g.concurrency_layer().available_permits("m"), 1);
    g.release_permit(&mut c);
    assert_eq!(g.concurrency_layer().available_permits("m"), 1);
}

#[test]
fn server_error_reaches_failover_records() {
    let mut g = gateway(1);
    let mut f = FailoverStrategy::new(vec!["127.0.0.1:18001".to_string(), "127.0.0.1:18002".to_string()]);
    let mut c = g.new_ctx();
    g.upstream_peer(&mut c, Ok(backend("127.0.0.1:18001")));
    llm_gateway::proxy::report_server_error(&c, &mut f);
    assert!(f.is_healthy("127.0.0.1:18001"));
    assert!(g.upstream_response_filter(&mut c, 500));
    llm_gateway::proxy::report_server_error(&c, &mut f);
    assert!(!f.is_healthy("127.0.0.1:18001"));
    match f.begin_selection() {
        FailoverStep::Connect { addr, .. } => assert_eq!(addr, "127.0.0.1:18002"),
        FailoverStep::Done(_) => panic!("the other backend must be tried"),
    }
}
