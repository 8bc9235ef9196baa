use llm_gateway::backend::Backend;
use llm_gateway::chain::{ChainExecutor, ChainStep, RoutingContext};
use llm_gateway::error::RoutingError;

type Answer = Result<&'static str, ()>;

fn run(chain: &ChainExecutor<Answer>) -> (Result<Backend, RoutingError>, Vec<usize>) {
    let mut asked = Vec::new();
    let mut step = chain.begin();
    loop {
        match step {
            ChainStep::Run(i) => {
                asked.push(i);
                let answer = match chain.plugin(i) {
                    Ok(addr) => Ok(Backend { addr: addr.to_string(), healthy: true, failure_count: 0 }),
                    Err(()) => Err(RoutingError::BackendConnectionFailed("x".to_string())),
                };
                step = chain.after_plugin(i, answer);
            }
            ChainStep::Done(r) => return (r, asked),
        }
    }
}

#[test]
fn routing_context_new_keeps_fields() {
    let c = RoutingContext::new("m".to_string(), "/v1/chat/completions".to_string(), "openai".to_string());
    assert_eq!(c.model, "m");
    assert_eq!(c.path, "/v1/chat/completions");
    assert_eq!(c.target_protocol, "openai");
}

#[test]
fn chain_first_success_wins() {
    let chain = ChainExecutor::new(vec![Err(()), Ok("b:2"), Ok("c:3")]);
    let (r, asked) = run(&chain);
    assert_eq!(r.unwrap().addr, "b:2");
    assert_eq!(asked, vec![0, 1]);
}

#[test]
fn chain_all_fail_gives_no_available_backend() {
    let chain: ChainExecutor<Answer> = ChainExecutor::new(vec![Err(()), Err(())]);
    let (r, asked) = run(&chain);
    assert!(matches!(r, Err(RoutingError::NoAvailableBackend)));
    assert_eq!(asked, vec![0, 1]);
    let empty: ChainExecutor<Answer> = ChainExecutor::new(Vec::new());
    let (r, asked) = run(&empty);
    assert!(matches!(r, Err(RoutingError::NoAvailableBackend)));
    assert!(asked.is_empty());
}

#[test]
fn chain_add_plugin_appends() {
    let mut chain: ChainExecutor<Answer> = ChainExecutor::new(vec![Err(())]);
    chain.add_plugin(Ok("z:9"));
    assert_eq!(chain.len(), 2);
    let (r, _) = run(&chain);
    assert_eq!(r.unwrap().addr, "z:9");
}
