use llm_gateway::error::StatisticsError;
use llm_gateway::forward::{
    backend_uri, env_key, env_key_name, foreign_conversions, plan_direct_headers, plan_foreign_headers,
    routing_path, HeaderPlan, dispatch, no_route_message, Dispatch, backend_request_uri, ForwardError,
};
use llm_gateway::protocol::{ConverterKind, Protocol, ProtocolConversionMiddleware};

fn set(plan: &HeaderPlan) -> Vec<(&str, &str)> {
    plan.set.iter().map(|(a, b)| (a.as_str(), b.as_str())).collect()
}

fn skip(plan: &HeaderPlan) -> Vec<&str> {
    plan.skip.iter().map(|s| s.as_str()).collect()
}

#[test]
fn routing_path_is_reversed_and_joined() {
    let nodes = vec!["sglang".to_string(), "qwen3.5-35b".to_string(), "input".to_string()];
    assert_eq!(routing_path(&nodes), "input -> qwen3.5-35b -> sglang");
    assert_eq!(routing_path(&vec!["only".to_string()]), "only");
    assert_eq!(routing_path(&Vec::new()), "");
}

#[test]
fn env_key_resolution() {
    assert_eq!(env_key_name("$OPENAI_KEY"), Some("OPENAI_KEY"));
    assert_eq!(env_key_name("sk-123"), None);
    assert_eq!(env_key_name(""), None);
    assert_eq!(env_key("$OPENAI_KEY", Some("secret".to_string())), "secret");
    assert_eq!(env_key("$OPENAI_KEY", None), "$OPENAI_KEY");
    assert_eq!(env_key("sk-123", Some("ignored".to_string())), "sk-123");
}

#[test]
fn env_key_with_braces() {
    assert_eq!(env_key_name("${OPENAI_API_KEY}"), Some("OPENAI_API_KEY"));
    assert_eq!(env_key("${OPENAI_API_KEY}", Some("v".to_string())), "v");
    assert_eq!(env_key("${OPENAI_API_KEY}", None), "${OPENAI_API_KEY}");
    assert_eq!(env_key_name("${}"), Some(""));
    assert_eq!(env_key_name("${X"), Some("{X"));
}

#[test]
fn dispatch_by_protocol() {
    assert_eq!(dispatch(Protocol::OpenAI, Some(Protocol::OpenAI)), Dispatch::Direct);
    assert_eq!(dispatch(Protocol::OpenAI, Some(Protocol::Anthropic)), Dispatch::Foreign);
    assert_eq!(dispatch(Protocol::Anthropic, None), Dispatch::Unavailable);
    assert_eq!(no_route_message(), "No available backend for this model");
}

#[test]
fn backend_uri_joins() {
    assert_eq!(backend_uri("http://127.0.0.1:18001", "/v1/chat/completions"), "http://127.0.0.1:18001/v1/chat/completions");
}

#[test]
fn direct_headers_without_key() {
    let p = plan_direct_headers(Protocol::OpenAI, None, None, true, true);
    assert_eq!(set(&p), vec![("content-type", "application/json")]);
    assert_eq!(skip(&p), vec!["host", "content-type", "content-length"]);
    assert!(p.skips("host"));
    assert!(!p.skips("authorization"));
}

#[test]
fn direct_headers_replace_client_keys() {
    let p = plan_direct_headers(Protocol::Anthropic, Some("$K"), Some("v".to_string()), true, true);
    assert_eq!(
        set(&p),
        vec![("content-type", "application/json"), ("x-api-key", "$K"), ("authorization", "$K")]
    );
    assert_eq!(skip(&p), vec!["host", "content-type", "content-length", "x-api-key", "authorization"]);
}

#[test]
fn direct_headers_add_protocol_key() {
    let p = plan_direct_headers(Protocol::OpenAI, Some("$K"), Some("v".to_string()), false, false);
    assert_eq!(set(&p), vec![("content-type", "application/json"), ("authorization", "v")]);
    let q = plan_direct_headers(Protocol::Anthropic, Some("raw"), None, false, false);
    assert_eq!(set(&q), vec![("content-type", "application/json"), ("x-api-key", "raw")]);
    assert_eq!(skip(&q), vec!["host", "content-type", "content-length"]);
}

#[test]
fn foreign_headers() {
    let p = plan_foreign_headers(Protocol::OpenAI, Some("k"), None);
    assert_eq!(set(&p), vec![("content-type", "application/json"), ("authorization", "k")]);
    assert_eq!(
        skip(&p),
        vec!["host", "content-type", "content-length", "authorization", "x-api-key", "anthropic-version"]
    );
    assert!(p.skips("anthropic-version"));
    let q = plan_foreign_headers(Protocol::Anthropic, None, None);
    assert_eq!(set(&q), vec![("content-type", "application/json")]);
    assert!(!q.skips("anthropic-version"));
}

#[test]
fn conversions_between_protocols() {
    assert_eq!(
        foreign_conversions(Protocol::OpenAI, Protocol::Anthropic),
        (ConverterKind::OpenaiToAnthropic, ConverterKind::AnthropicToOpenai)
    );
    assert_eq!(
        foreign_conversions(Protocol::Anthropic, Protocol::OpenAI),
        (ConverterKind::AnthropicToOpenai, ConverterKind::OpenaiToAnthropic)
    );
}

#[test]
fn middleware_chooses_converters() {
    let m = ProtocolConversionMiddleware::new();
    assert_eq!(m.create_converter(Protocol::Anthropic, Protocol::OpenAI), Some(ConverterKind::AnthropicToOpenai));
    assert_eq!(m.create_converter(Protocol::OpenAI, Protocol::Anthropic), Some(ConverterKind::OpenaiToAnthropic));
    assert_eq!(m.create_converter(Protocol::OpenAI, Protocol::OpenAI), None);
    assert!(m.needs_conversion(Protocol::OpenAI, Protocol::Anthropic));
    assert!(!m.needs_conversion(Protocol::Anthropic, Protocol::Anthropic));
    let d = ProtocolConversionMiddleware::default();
    assert_eq!(d.create_converter(Protocol::Anthropic, Protocol::Anthropic), None);
    assert_eq!(Protocol::OpenAI.name(), "openai");
    assert_eq!(Protocol::Anthropic.name(), "anthropic");
}

#[test]
fn statistics_error_from_string_and_messages() {
    let e: StatisticsError = String::from("bad path").into();
    assert!(matches!(&e, StatisticsError::ConfigurationError(s) if s == "bad path"));
    assert_eq!(e.message(), "Configuration error: bad path");
    assert_eq!(StatisticsError::DatabaseError("x".into()).message(), "Database error: x");
    assert_eq!(StatisticsError::QueryError("y".into()).message(), "Query error: y");
}

#[test]
fn forwarded_headers_copy_all_unskipped_values() {
    let plan = plan_direct_headers(Protocol::OpenAI, Some("k"), None, true, false);
    let incoming = vec![
        ("host".to_string(), "gw".to_string()),
        ("x-api-key".to_string(), "client".to_string()),
        ("accept".to_string(), "text/event-stream".to_string()),
        ("x-trace".to_string(), "1".to_string()),
        ("x-trace".to_string(), "2".to_string()),
    ];
    let h = llm_gateway::forward::forwarded_headers(&plan, &incoming);
    let got: Vec<(&str, &str)> = h.iter().map(|(a, b)| (a.as_str(), b.as_str())).collect();
    assert_eq!(
        got,
        vec![
            ("content-type", "application/json"),
            ("x-api-key", "k"),
            ("accept", "text/event-stream"),
            ("x-trace", "1"),
            ("x-trace", "2"),
        ]
    );
}

#[test]
fn backend_request_uri_parses_or_fails() {
    let u = backend_request_uri("http://127.0.0.1:18001", "/v1/chat/completions").unwrap();
    assert_eq!(u.to_string(), "http://127.0.0.1:18001/v1/chat/completions");
    match backend_request_uri("http://bad host", "/x") {
        Err(ForwardError::BackendRequestFailed(m)) => assert!(!m.is_empty()),
        Ok(_) => panic!("an address with a space must not parse"),
    }
}

#[test]
fn request_headers_from_client_headers() {
    let incoming = vec![
        ("authorization".to_string(), "Bearer client".to_string()),
        ("accept".to_string(), "*/*".to_string()),
    ];
    let h = llm_gateway::forward::direct_request_headers(Protocol::Anthropic, Some("k"), None, &incoming);
    let got: Vec<(&str, &str)> = h.iter().map(|(a, b)| (a.as_str(), b.as_str())).collect();
    assert_eq!(got, vec![("content-type", "application/json"), ("authorization", "k"), ("accept", "*/*")]);
    let none: Vec<(String, String)> = vec![("accept".to_string(), "*/*".to_string())];
    let h = llm_gateway::forward::direct_request_headers(Protocol::OpenAI, Some("$K"), Some("v".to_string()), &none);
    let got: Vec<(&str, &str)> = h.iter().map(|(a, b)| (a.as_str(), b.as_str())).collect();
    assert_eq!(got, vec![("content-type", "application/json"), ("authorization", "v"), ("accept", "*/*")]);
    let foreign_in = vec![
        ("anthropic-version".to_string(), "2023-06-01".to_string()),
        ("x-api-key".to_string(), "client".to_string()),
        ("accept".to_string(), "*/*".to_string()),
    ];
    let h = llm_gateway::forward::foreign_request_headers(Protocol::OpenAI, Some("k"), None, &foreign_in);
    let got: Vec<(&str, &str)> = h.iter().map(|(a, b)| (a.as_str(), b.as_str())).collect();
    assert_eq!(got, vec![("content-type", "application/json"), ("authorization", "k"), ("accept", "*/*")]);
    assert!(llm_gateway::forward::has_header_named(&foreign_in, "x-api-key"));
    assert!(!llm_gateway::forward::has_header_named(&foreign_in, "host"));
}

#[test]
fn forward_result_passes_response_or_fails() {
    let ok: Result<u16, ()> = Ok(200);
    assert_eq!(llm_gateway::forward::forward_result(ok).unwrap(), 200);
    let err: Result<u16, &str> = Err("refused");
    match llm_gateway::forward::forward_result(err) {
        Err(ForwardError::BackendRequestFailed(m)) => assert_eq!(m, "Failed to connect to backend"),
        Ok(_) => panic!("a failed send must fail"),
    }
}
