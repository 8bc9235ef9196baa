//! Which streaming protocol a request or a backend speaks, and which
//! converter a pair of protocols calls for.

use vstd::prelude::*;

verus! {

/// A wire protocol spoken by clients and backends.
#[derive(Clone, Copy, Debug, PartialEq, Eq, Structural)]
pub enum Protocol {
    OpenAI,
    Anthropic,
}

/// The streaming converter that turns one protocol's event stream into
/// another's.
#[derive(Clone, Copy, Debug, PartialEq, Eq, Structural)]
pub enum ConverterKind {
    /// Anthropic events in, OpenAI chunks out.
    AnthropicToOpenai,
    /// OpenAI chunks in, Anthropic events out.
    OpenaiToAnthropic,
}

/// The name of a protocol, as it appears in logs and routing contexts.
pub open spec fn protocol_name_spec(p: Protocol) -> Seq<char> {
    match p {
        Protocol::OpenAI => "openai"@,
        Protocol::Anthropic => "anthropic"@,
    }
}

impl Protocol {
    /// The protocol's lower-case name.
    pub fn name(&self) -> (s: &'static str)
        ensures
            s@ == protocol_name_spec(*self),
    {
        proof {
            reveal_strlit("openai");
            reveal_strlit("anthropic");
        }
        match self {
            Protocol::OpenAI => "openai",
            Protocol::Anthropic => "anthropic",
        }
    }
}

/// The converter needed to carry a stream from `from` to `to`, if any.
pub open spec fn converter_for(from: Protocol, to: Protocol) -> Option<ConverterKind> {
    match (from, to) {
        (Protocol::Anthropic, Protocol::OpenAI) => Some(ConverterKind::AnthropicToOpenai),
        (Protocol::OpenAI, Protocol::Anthropic) => Some(ConverterKind::OpenaiToAnthropic),
        _ => None,
    }
}

/// Chooses the streaming converter between two protocols.
pub struct ProtocolConversionMiddleware;

impl ProtocolConversionMiddleware {
    /// Creates the middleware.
    pub fn new() -> (m: Self) {
        ProtocolConversionMiddleware
    }

    /// The converter that carries a stream from `from` to `to`; `None` when
    /// the two protocols are the same and the stream passes through.
    pub fn create_converter(&self, from: Protocol, to: Protocol) -> (c: Option<ConverterKind>)
        ensures
            c == converter_for(from, to),
    {
        match (from, to) {
            (Protocol::Anthropic, Protocol::OpenAI) => Some(ConverterKind::AnthropicToOpenai),
            (Protocol::OpenAI, Protocol::Anthropic) => Some(ConverterKind::OpenaiToAnthropic),
            _ => None,
        }
    }

    /// Whether a stream from `from` to `to` must be converted.
    pub fn needs_conversion(&self, from: Protocol, to: Protocol) -> (b: bool)
        ensures
            b == (from != to),
    {
        from != to
    }
}

impl Default for ProtocolConversionMiddleware {
    fn default() -> (m: Self)
        ensures
            m == ProtocolConversionMiddleware,
    {
        Self::new()
    }
}

/// A conversion is needed exactly when a converter exists for the pair.
pub proof fn lemma_conversion_iff_converter(from: Protocol, to: Protocol)
    ensures
        (from != to) <==> converter_for(from, to).is_some(),
{
}

} // verus!
