//! The decisions the gateway takes at each stage of a proxied request:
//! which model a request asks for, whether it may run under the concurrency
//! limit, which backend serves it, how its response stream is transformed,
//! and how its outcome counts toward the backend's health.
//!
//! The HTTP server drives these stages and performs the I/O between them.

use crate::backend::{
    failure_count_spec,
    record_failure_spec,
    record_success_spec,
    streaks_after_failure,
    streaks_after_success,
    Backend,
    BackendManager,
};
use crate::chain::{ChainExecutor, RoutingContext};
use crate::concurrency::{held_in, limit_exceeded_message, ConcurrencyLimitLayer, ConcurrencyPermit};
use crate::failover::{BackendSelectionResult, FailoverStrategy};
use crate::protocol::{converter_for, protocol_name_spec, Protocol, ProtocolConversionMiddleware};
use crate::streaming::StreamingTransformCtx;
use crate::text::{contains_seq, occurs_at, str_contains};
use vstd::prelude::*;

verus! {

/// The string at field `key` of the JSON object that `body` encodes; `None`
/// when `body` is not JSON, is not an object, lacks the field, or the field
/// is not a string.
pub uninterp spec fn json_string_field(body: Seq<u8>, key: Seq<char>) -> Option<Seq<char>>;

/// Parses `body` with `serde_json::from_slice::<serde_json::Value>`, then
/// reads field `key` with `Value::get` and `Value::as_str`. The contract
/// names the outcome `json_string_field(body, key)` and says no more of it:
/// what serde_json accepts as JSON is not restated here. None of these calls
/// panics.
#[verifier::external_body]
fn json_str_field(body: &[u8], key: &str) -> (r: Option<String>)
    ensures
        match r {
            Some(s) => json_string_field(body@, key@) == Some(s@),
            None => json_string_field(body@, key@) == None::<Seq<char>>,
        },
{
    match serde_json::from_slice::<serde_json::Value>(body) {
        Ok(v) => v.get(key).and_then(|f| f.as_str()).map(|s| s.to_string()),
        Err(_) => None,
    }
}

/// The model a request names, or "default".
pub open spec fn model_or_default_spec(found: Option<Seq<char>>) -> Seq<char> {
    match found {
        Some(m) => m,
        None => "default"@,
    }
}

/// The model a request body asks for: its JSON `model` field when that is a
/// string, and "default" otherwise or when there is no body.
pub open spec fn model_from_body(body: Option<Seq<u8>>) -> Seq<char> {
    match body {
        Some(b) => model_or_default_spec(json_string_field(b, "model"@)),
        None => "default"@,
    }
}

/// A body, by its bytes.
pub open spec fn body_view(body: Option<&[u8]>) -> Option<Seq<u8>> {
    match body {
        Some(b) => Some(b@),
        None => None,
    }
}

/// The model found in a request, or "default" when none was found.
pub fn model_or_default(found: Option<String>) -> (m: String)
    ensures
        m@ == model_or_default_spec(match found {
            Some(s) => Some(s@),
            None => None,
        }),
{
    match found {
        Some(s) => s,
        None => String::from_str("default"),
    }
}

/// The protocol a backend answers in: Anthropic when its address mentions
/// "anthropic", OpenAI otherwise and when no backend is selected.
pub open spec fn source_protocol_spec(selected: Option<Backend>) -> Protocol {
    match selected {
        Some(b) => if contains_seq(b.addr@, "anthropic"@) {
            Protocol::Anthropic
        } else {
            Protocol::OpenAI
        },
        None => Protocol::OpenAI,
    }
}

/// The selected backend answers in Anthropic's protocol exactly when its
/// address holds "anthropic" somewhere, at any position; otherwise, and
/// when no backend is selected, it answers in OpenAI's.
pub proof fn lemma_source_protocol_by_address(b: Backend)
    ensures
        (source_protocol_spec(Some(b)) == Protocol::Anthropic) <==> (exists|i: int|
            0 <= i && i + 9 <= b.addr@.len() && #[trigger] b.addr@.subrange(i, i + 9)
                == "anthropic"@),
        source_protocol_spec(Some(b)) != Protocol::Anthropic ==> source_protocol_spec(Some(b))
            == Protocol::OpenAI,
        source_protocol_spec(None) == Protocol::OpenAI,
{
    reveal_strlit("anthropic");
    assert("anthropic"@.len() == 9);
    if exists|i: int|
        0 <= i && i + 9 <= b.addr@.len() && #[trigger] b.addr@.subrange(i, i + 9) == "anthropic"@ {
        let i = choose|i: int|
            0 <= i && i + 9 <= b.addr@.len() && #[trigger] b.addr@.subrange(i, i + 9)
                == "anthropic"@;
        assert(occurs_at(b.addr@, "anthropic"@, i));
    }
    if contains_seq(b.addr@, "anthropic"@) {
        let i = choose|i: int| occurs_at(b.addr@, "anthropic"@, i);
        assert(b.addr@.subrange(i, i + 9) == "anthropic"@);
    }
}

/// The protocol the gateway sends downstream.
pub open spec fn downstream_protocol() -> Protocol {
    Protocol::Anthropic
}

/// The streaming transform for a response from `source`: a converter to the
/// downstream protocol when one is needed, and otherwise a pass-through that
/// still parses the stream.
pub open spec fn is_transform_for(t: StreamingTransformCtx, source: Protocol) -> bool {
    let target = downstream_protocol();
    &&& t.converter == converter_for(source, target)
    &&& t.source_protocol@ == protocol_name_spec(source)
    &&& t.target_protocol@ == (if converter_for(source, target) is Some {
        protocol_name_spec(target)
    } else {
        protocol_name_spec(source)
    })
}

/// The state of one proxied request.
pub struct ProxyContext {
    /// The backend chosen for the request.
    pub selected_backend: Option<Backend>,
    /// The concurrency permit held while the request runs.
    pub permit: Option<ConcurrencyPermit>,
    /// The request path.
    pub path: String,
    /// The model the request asks for; empty until the body is seen.
    pub model: String,
    /// The transform of the response stream, set once the response starts.
    pub streaming_transform: Option<StreamingTransformCtx>,
    /// Whether the response body has started.
    pub body_started: bool,
    /// Whether a server error of the selected backend has been recorded
    /// against it for this request.
    pub server_error_recorded: bool,
}

/// What to do with a request after its body was seen.
#[derive(Debug, Clone, Copy, PartialEq, Eq, Structural)]
pub enum RequestBodyDecision {
    /// Go on proxying.
    Continue,
    /// Refuse the request with 503: its model is at the concurrency limit.
    Reject,
}

/// The gateway: backend health, concurrency limits, the strategy chain and
/// protocol conversion.
pub struct LlmGatewayProxy<P> {
    backend_manager: BackendManager,
    concurrency_layer: ConcurrencyLimitLayer,
    strategy_chain: ChainExecutor<P>,
    protocol_middleware: ProtocolConversionMiddleware,
}

impl<P> LlmGatewayProxy<P> {
    /// The backend health records.
    pub closed spec fn manager(&self) -> BackendManager {
        self.backend_manager
    }

    /// The backends and their health.
    pub open spec fn backends(&self) -> Seq<Backend> {
        self.manager()@
    }

    /// The runs of consecutive successes of the backends.
    pub open spec fn streaks(&self) -> Seq<u32> {
        self.manager().streaks()
    }

    /// The failure threshold of the backends.
    pub open spec fn threshold(&self) -> u32 {
        self.manager().threshold()
    }

    /// The recovery threshold of the backends.
    pub open spec fn recovery(&self) -> u32 {
        self.manager().recovery()
    }

    /// The concurrency layer.
    pub closed spec fn limits(&self) -> ConcurrencyLimitLayer {
        self.concurrency_layer
    }

    /// The plugins of the strategy chain.
    pub closed spec fn plugins(&self) -> Seq<P> {
        self.strategy_chain@
    }

    /// Well-formedness of the parts.
    pub closed spec fn wf(&self) -> bool {
        self.backend_manager.wf() && self.concurrency_layer.wf()
    }

    /// A gateway from its parts.
    pub fn new(
        backend_manager: BackendManager,
        concurrency_layer: ConcurrencyLimitLayer,
        strategy_chain: ChainExecutor<P>,
        protocol_middleware: ProtocolConversionMiddleware,
    ) -> (p: Self)
        requires
            backend_manager.wf(),
            concurrency_layer.wf(),
        ensures
            p.wf(),
            p.manager() == backend_manager,
            p.limits() == concurrency_layer,
            p.plugins() == strategy_chain@,
    {
        LlmGatewayProxy { backend_manager, concurrency_layer, strategy_chain, protocol_middleware }
    }

    /// The strategy chain.
    pub fn strategy_chain(&self) -> (c: &ChainExecutor<P>)
        ensures
            c@ == self.plugins(),
    {
        &self.strategy_chain
    }

    /// The backend manager.
    pub fn backend_manager(&self) -> (m: &BackendManager)
        ensures
            *m == self.manager(),
    {
        &self.backend_manager
    }

    /// The concurrency layer.
    pub fn concurrency_layer(&self) -> (l: &ConcurrencyLimitLayer)
        ensures
            *l == self.limits(),
    {
        &self.concurrency_layer
    }

    /// The state of a request before anything is known of it.
    pub fn new_ctx(&self) -> (c: ProxyContext)
        ensures
            c.selected_backend is None,
            c.permit is None,
            c.path@ == Seq::<char>::empty(),
            c.model@ == Seq::<char>::empty(),
            c.streaming_transform is None,
            !c.body_started,
            !c.server_error_recorded,
    {
        ProxyContext {
            selected_backend: None,
            permit: None,
            path: String::new(),
            model: String::new(),
            streaming_transform: None,
            body_started: false,
            server_error_recorded: false,
        }
    }

    /// The model a request body asks for.
    pub fn extract_model(&self, body: Option<&[u8]>) -> (m: String)
        ensures
            m@ == model_from_body(body_view(body)),
    {
        proof {
            reveal_strlit("model");
        }
        match body {
            Some(bytes) => model_or_default(json_str_field(bytes, "model")),
            None => String::from_str("default"),
        }
    }

    /// Takes a request body chunk. The path is recorded; on the first chunk
    /// that arrives while no model is known, the model is read from it and a
    /// permit for that model is requested: granted, the request goes on
    /// holding it (a permit held before is returned); refused, the request
    /// is rejected.
    pub fn request_body_filter(
        &mut self,
        ctx: &mut ProxyContext,
        path: String,
        body: Option<&[u8]>,
    ) -> (d: RequestBodyDecision)
        requires
            old(self).wf(),
            old(ctx).permit matches Some(q) ==> old(self).limits().held(q.model_spec()) > 0,
        ensures
            final(self).wf(),
            final(self).manager() == old(self).manager(),
            final(self).plugins() == old(self).plugins(),
            final(self).limits().limit() == old(self).limits().limit(),
            final(ctx).path == path,
            final(ctx).server_error_recorded == old(ctx).server_error_recorded,
            final(ctx).selected_backend == old(ctx).selected_backend,
            final(ctx).streaming_transform == old(ctx).streaming_transform,
            final(ctx).body_started == old(ctx).body_started,
            !(old(ctx).model@.len() == 0 && body is Some) ==> {
                &&& d == RequestBodyDecision::Continue
                &&& final(ctx).model == old(ctx).model
                &&& final(ctx).permit == old(ctx).permit
                &&& final(self).limits().ledger() == old(self).limits().ledger()
            },
            (old(ctx).model@.len() == 0 && body is Some) ==> {
                let model = model_from_body(body_view(body));
                let ledger = old(self).limits().ledger();
                let granted = ledger.insert(model, (held_in(ledger, model) + 1) as usize);
                &&& final(ctx).model@ == model
                &&& held_in(ledger, model) < old(self).limits().limit() ==> {
                    &&& d == RequestBodyDecision::Continue
                    &&& final(ctx).permit matches Some(p) && p.model_spec() == model
                    &&& final(self).limits().ledger() == match old(ctx).permit {
                        Some(q) => granted.insert(
                            q.model_spec(),
                            (held_in(granted, q.model_spec()) - 1) as usize,
                        ),
                        None => granted,
                    }
                }
                &&& held_in(ledger, model) >= old(self).limits().limit() ==> {
                    &&& d == RequestBodyDecision::Reject
                    &&& final(ctx).permit == old(ctx).permit
                    &&& final(self).limits().ledger() == ledger
                }
            },
    {
        ctx.path = path;
        if ctx.model.unicode_len() == 0 && body.is_some() {
            let model = self.extract_model(body);
            ctx.model = model;
            match self.concurrency_layer.acquire(ctx.model.as_str()) {
                Ok(permit) => {
                    let previous = ctx.permit.take();
                    ctx.permit = Some(permit);
                    match previous {
                        Some(q) => {
                            self.concurrency_layer.release(q);
                        },
                        None => {},
                    }
                    RequestBodyDecision::Continue
                },
                Err(_) => RequestBodyDecision::Reject,
            }
        } else {
            RequestBodyDecision::Continue
        }
    }

    /// The routing context of a request: its model and path, with OpenAI as
    /// the target protocol.
    pub fn routing_context(&self, ctx: &ProxyContext) -> (r: RoutingContext)
        ensures
            r.model@ == ctx.model@,
            r.path@ == ctx.path@,
            r.target_protocol@ == "openai"@,
    {
        RoutingContext::new(ctx.model.clone(), ctx.path.clone(), String::from_str("openai"))
    }

    /// Takes the outcome of the strategy chain: a selected backend is
    /// recorded in the request and its address is the peer to connect to;
    /// without one there is no peer and the request is answered with 503.
    pub fn upstream_peer(&self, ctx: &mut ProxyContext, selection: BackendSelectionResult) -> (peer:
        Option<String>)
        ensures
            match selection {
                Ok(b) => {
                    &&& final(ctx).selected_backend == Some(b)
                    &&& peer matches Some(a) && a@ == b.addr@
                },
                Err(_) => {
                    &&& final(ctx).selected_backend == old(ctx).selected_backend
                    &&& peer is None
                },
            },
            final(ctx).permit == old(ctx).permit,
            final(ctx).path == old(ctx).path,
            final(ctx).model == old(ctx).model,
            final(ctx).streaming_transform == old(ctx).streaming_transform,
            final(ctx).body_started == old(ctx).body_started,
            final(ctx).server_error_recorded == old(ctx).server_error_recorded,
    {
        match selection {
            Ok(backend) => {
                let addr = backend.addr.clone();
                ctx.selected_backend = Some(backend);
                Some(addr)
            },
            Err(_) => None,
        }
    }

    /// Ends a request: unless a server error of the selected backend was
    /// already recorded for it, the selected backend is credited with a
    /// failure when the request failed and with a success otherwise; the
    /// request's permit is returned.
    pub fn logging(&mut self, ctx: &mut ProxyContext, failed: bool)
        requires
            old(self).wf(),
            failed && !old(ctx).server_error_recorded ==> (old(ctx).selected_backend matches Some(
                b,
            ) ==> failure_count_spec(old(self).backends(), b.addr@) < u32::MAX),
            old(ctx).permit matches Some(q) ==> old(self).limits().held(q.model_spec()) > 0,
        ensures
            final(self).wf(),
            final(self).manager().config() == old(self).manager().config(),
            final(self).plugins() == old(self).plugins(),
            final(self).backends() == match old(ctx).selected_backend {
                Some(b) => if old(ctx).server_error_recorded {
                    old(self).backends()
                } else if failed {
                    record_failure_spec(old(self).backends(), b.addr@, old(self).threshold())
                } else {
                    record_success_spec(
                        old(self).backends(),
                        old(self).streaks(),
                        b.addr@,
                        old(self).recovery(),
                    )
                },
                None => old(self).backends(),
            },
            final(self).streaks() == match old(ctx).selected_backend {
                Some(b) => if old(ctx).server_error_recorded {
                    old(self).streaks()
                } else if failed {
                    streaks_after_failure(old(self).streaks(), old(self).backends(), b.addr@)
                } else {
                    streaks_after_success(old(self).streaks(), old(self).backends(), b.addr@)
                },
                None => old(self).streaks(),
            },
            final(self).limits().limit() == old(self).limits().limit(),
            final(self).limits().ledger() == match old(ctx).permit {
                Some(q) => old(self).limits().ledger().insert(
                    q.model_spec(),
                    (old(self).limits().held(q.model_spec()) - 1) as usize,
                ),
                None => old(self).limits().ledger(),
            },
            final(ctx).permit is None,
            final(ctx).selected_backend == old(ctx).selected_backend,
            final(ctx).path == old(ctx).path,
            final(ctx).model == old(ctx).model,
            final(ctx).streaming_transform == old(ctx).streaming_transform,
            final(ctx).body_started == old(ctx).body_started,
            final(ctx).server_error_recorded == old(ctx).server_error_recorded,
    {
        if !ctx.server_error_recorded {
            match &ctx.selected_backend {
                Some(backend) => {
                    if failed {
                        self.backend_manager.record_failure(backend.addr.as_str());
                    } else {
                        self.backend_manager.record_success(backend.addr.as_str());
                    }
                },
                None => {},
            }
        }
        match ctx.permit.take() {
            Some(q) => {
                self.concurrency_layer.release(q);
            },
            None => {},
        }
    }

    /// Returns the request's permit, if it still holds one, without
    /// crediting any backend.
    pub fn release_permit(&mut self, ctx: &mut ProxyContext)
        requires
            old(self).wf(),
            old(ctx).permit matches Some(q) ==> old(self).limits().held(q.model_spec()) > 0,
        ensures
            final(self).wf(),
            final(self).manager() == old(self).manager(),
            final(self).plugins() == old(self).plugins(),
            final(self).limits().limit() == old(self).limits().limit(),
            final(self).limits().ledger() == match old(ctx).permit {
                Some(q) => old(self).limits().ledger().insert(
                    q.model_spec(),
                    (old(self).limits().held(q.model_spec()) - 1) as usize,
                ),
                None => old(self).limits().ledger(),
            },
            final(ctx).permit is None,
            final(ctx).selected_backend == old(ctx).selected_backend,
            final(ctx).path == old(ctx).path,
            final(ctx).model == old(ctx).model,
            final(ctx).streaming_transform == old(ctx).streaming_transform,
            final(ctx).body_started == old(ctx).body_started,
            final(ctx).server_error_recorded == old(ctx).server_error_recorded,
    {
        match ctx.permit.take() {
            Some(q) => {
                self.concurrency_layer.release(q);
            },
            None => {},
        }
    }

    /// The protocol the selected backend answers in.
    pub fn detect_source_protocol(&self, ctx: &ProxyContext) -> (p: Protocol)
        ensures
            p == source_protocol_spec(ctx.selected_backend),
    {
        proof {
            reveal_strlit("anthropic");
        }
        match &ctx.selected_backend {
            Some(b) => {
                if str_contains(b.addr.as_str(), "anthropic") {
                    Protocol::Anthropic
                } else {
                    Protocol::OpenAI
                }
            },
            None => Protocol::OpenAI,
        }
    }

    /// The transform for the response of a request: from the selected
    /// backend's protocol to the downstream protocol.
    pub fn create_streaming_transform(&self, ctx: &ProxyContext) -> (t: Option<StreamingTransformCtx>)
        ensures
            t matches Some(x) && is_transform_for(x, source_protocol_spec(ctx.selected_backend)),
    {
        let source = self.detect_source_protocol(ctx);
        let target = Protocol::Anthropic;
        let converter = self.protocol_middleware.create_converter(source, target);
        if converter.is_some() {
            Some(
                StreamingTransformCtx::new(
                    String::from_str(source.name()),
                    String::from_str(target.name()),
                    converter,
                ),
            )
        } else {
            Some(
                StreamingTransformCtx::new(
                    String::from_str(source.name()),
                    String::from_str(source.name()),
                    None,
                ),
            )
        }
    }

    /// Takes the status of the upstream response: the response transform is
    /// set up, and a server error (500 or above) from a selected backend is
    /// recorded as a failure of that backend, once per request. The result
    /// says whether the status is such a server error.
    pub fn upstream_response_filter(&mut self, ctx: &mut ProxyContext, status: u16) -> (server_error:
        bool)
        requires
            old(self).wf(),
            status >= 500 && !old(ctx).server_error_recorded ==> (old(ctx).selected_backend matches Some(
                b,
            ) ==> failure_count_spec(old(self).backends(), b.addr@) < u32::MAX),
        ensures
            final(self).wf(),
            final(self).manager().config() == old(self).manager().config(),
            final(self).plugins() == old(self).plugins(),
            final(self).limits() == old(self).limits(),
            final(ctx).streaming_transform matches Some(x) && is_transform_for(
                x,
                source_protocol_spec(old(ctx).selected_backend),
            ),
            server_error == (status >= 500 && old(ctx).selected_backend is Some),
            final(ctx).server_error_recorded == (old(ctx).server_error_recorded || server_error),
            match old(ctx).selected_backend {
                Some(b) => if server_error && !old(ctx).server_error_recorded {
                    &&& final(self).backends() == record_failure_spec(
                        old(self).backends(),
                        b.addr@,
                        old(self).threshold(),
                    )
                    &&& final(self).streaks() == streaks_after_failure(
                        old(self).streaks(),
                        old(self).backends(),
                        b.addr@,
                    )
                } else {
                    final(self).manager() == old(self).manager()
                },
                None => final(self).manager() == old(self).manager(),
            },
            final(ctx).selected_backend == old(ctx).selected_backend,
            final(ctx).permit == old(ctx).permit,
            final(ctx).path == old(ctx).path,
            final(ctx).model == old(ctx).model,
            final(ctx).body_started == old(ctx).body_started,
    {
        ctx.streaming_transform = self.create_streaming_transform(ctx);
        let server_error = status >= 500 && ctx.selected_backend.is_some();
        if server_error && !ctx.server_error_recorded {
            match &ctx.selected_backend {
                Some(backend) => {
                    self.backend_manager.record_failure(backend.addr.as_str());
                },
                None => {},
            }
        }
        if server_error {
            ctx.server_error_recorded = true;
        }
        server_error
    }
}

/// Carries a recorded server error of a request over to a failover
/// strategy's records: the selected backend is marked unhealthy there, so
/// that no later selection names it (see
/// `failover::lemma_recorded_failure_avoided`). A request without a
/// recorded server error changes nothing.
pub fn report_server_error(ctx: &ProxyContext, strategy: &mut FailoverStrategy)
    requires
        old(strategy).wf(),
    ensures
        final(strategy).wf(),
        final(strategy).addrs() == old(strategy).addrs(),
        final(strategy).health() == match ctx.selected_backend {
            Some(b) => if ctx.server_error_recorded {
                old(strategy).health().insert(b.addr@, false)
            } else {
                old(strategy).health()
            },
            None => old(strategy).health(),
        },
{
    if ctx.server_error_recorded {
        match &ctx.selected_backend {
            Some(b) => {
                strategy.record_failure(b.addr.as_str());
            },
            None => {},
        }
    }
}

/// Notes a response body chunk: once a chunk has arrived the body has
/// started. The result says whether the chunk goes through the response
/// transform.
pub fn note_response_body(ctx: &mut ProxyContext, has_chunk: bool) -> (transform: bool)
    ensures
        final(ctx).body_started == (old(ctx).body_started || has_chunk),
        transform == (old(ctx).streaming_transform is Some),
        final(ctx).streaming_transform == old(ctx).streaming_transform,
        final(ctx).selected_backend == old(ctx).selected_backend,
        final(ctx).permit == old(ctx).permit,
        final(ctx).path == old(ctx).path,
        final(ctx).model == old(ctx).model,
        final(ctx).server_error_recorded == old(ctx).server_error_recorded,
{
    if has_chunk {
        ctx.body_started = true;
    }
    ctx.streaming_transform.is_some()
}

/// The body sent downstream for transformed output: none when the output
/// is empty.
pub fn downstream_body(output: Vec<u8>) -> (body: Option<Vec<u8>>)
    ensures
        output@.len() == 0 ==> body is None,
        output@.len() > 0 ==> body == Some(output),
{
    if output.len() == 0 {
        None
    } else {
        Some(output)
    }
}

} // verus!
