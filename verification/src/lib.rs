//! Verified core of an LLM gateway: backend health tracking, per-model
//! concurrency limits, failover selection over a chain of routing plugins,
//! and the decisions the proxy takes around each request.

pub mod backend;
pub mod chain;
pub mod concurrency;
pub mod error;
pub mod failover;
pub mod forward;
pub mod keyed;
pub mod protocol;
pub mod proxy;
pub mod streaming;
pub mod text;
