# llm_gateway

The verified core of an LLM gateway proof of concept.

- `src/backend.rs` — backends and their health (failure threshold, recovery).
- `src/failover.rs` — health records per address and the failover selection
  steps.
- `src/chain.rs` — the strategy chain: plugins asked in order, first backend
  wins.
- `src/concurrency.rs` — per-model concurrency permits.
- `src/protocol.rs`, `src/streaming.rs` — protocols, converter choice, and how
  per-message results make up the downstream body.
- `src/proxy.rs` — the decisions taken at each stage of a proxied request.
- `src/forward.rs` — routing path, backend URI and header plans for forwarded
  requests.
- `src/keyed.rs`, `src/text.rs` — small string map and string helpers.

`app/` holds the Pingora service, the asynchronous plugin interface, the
SSE parsing and conversion calls, and the mock backends.
