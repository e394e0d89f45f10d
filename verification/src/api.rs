//! Shared data model of the streaming pipeline: the provider selection, the
//! chat request that a stream is opened for, and the outcome and fault types
//! that the pipeline reports.

use vstd::prelude::*;

use crate::anthropic::{anthropic_extract, spec_anthropic_outcome};
use crate::openai::{openai_extract, spec_openai_outcome};
use crate::sse::SSEvent;

verus! {

/// The upstream provider a stream talks to, together with its API key.
pub enum ApiProvider {
    OpenAI(String),
    Anthropic(String),
}

/// One message of a conversation transcript.
#[derive(Debug, Clone)]
pub struct ChatMessage {
    pub role: ChatRole,
    pub content: String,
}

/// The speaker of a [`ChatMessage`].
#[derive(Debug, PartialEq, Eq, Structural, Clone, Copy)]
pub enum ChatRole {
    User,
    System,
    Assistant,
}

/// What one invocation sends upstream: a system prompt and an ordered
/// transcript.
pub struct ChatRequest {
    pub system_prompt: String,
    pub transcript: Vec<ChatMessage>,
}

/// What a provider adapter makes of one parsed event: a token fragment, a
/// token-free event, or the provider's end-of-stream sentinel.
#[derive(Debug)]
pub enum TokenOutcome {
    Token(String),
    NoToken,
    StreamDone,
}

/// A fault that terminates the current stream.  No fault is recoverable
/// within the stream; the consumer decides what to do with the partial
/// output already delivered.
#[derive(Debug, PartialEq, Eq, Structural, Clone, Copy)]
pub enum StreamFault {
    /// The transport itself failed or ended mid-block.
    TransportError,
    /// A chunk was not valid text on its own (for instance, a chunk boundary
    /// split a multi-byte character).
    DecodingError,
    /// An event block matched neither form of the event grammar.
    MalformedEventError,
    /// A token-bearing payload did not decode to the provider's shape.
    PayloadDecodeError,
    /// An event name without a defined disposition.  Neither provider
    /// produces this: unrecognized names are token-free events.
    UnrecognizedEventError,
}

/// Where a stream stands after a chunk has been ingested.
#[derive(Debug, PartialEq, Eq, Structural, Clone, Copy)]
pub enum StreamStatus {
    /// More chunks are welcome.
    Open,
    /// The stream ended normally: the end-of-stream sentinel was seen, or the
    /// stream had already terminated earlier.
    Done,
    /// The stream ended on a fault.
    Failed(StreamFault),
}

/// The provider-independent reading of one event, at the specification level.
pub enum SpecOutcome {
    /// The event carries this token fragment.
    Token(Seq<char>),
    /// A token-free event.
    NoToken,
    /// The provider's end-of-stream sentinel.
    Done,
    /// A token-bearing payload that does not decode to the provider's shape.
    Bad,
}

/// The executable result `r` reports exactly the outcome `so`.
pub open spec fn outcome_matches(so: SpecOutcome, r: Result<TokenOutcome, StreamFault>) -> bool {
    match so {
        SpecOutcome::Token(t) => r matches Ok(TokenOutcome::Token(s)) && s@ == t,
        SpecOutcome::NoToken => r == Ok::<TokenOutcome, StreamFault>(TokenOutcome::NoToken),
        SpecOutcome::Done => r == Ok::<TokenOutcome, StreamFault>(TokenOutcome::StreamDone),
        SpecOutcome::Bad => r == Err::<TokenOutcome, StreamFault>(StreamFault::PayloadDecodeError),
    }
}

/// The outcome of one event under the active provider.
pub open spec fn spec_outcome(p: &ApiProvider, name: Option<Seq<char>>, data: Seq<char>) -> SpecOutcome {
    match p {
        ApiProvider::OpenAI(_) => spec_openai_outcome(data),
        ApiProvider::Anthropic(_) => spec_anthropic_outcome(name, data),
    }
}

/// Reads one parsed event under the active provider.
pub fn process_sse(provider: &ApiProvider, event: SSEvent) -> (r: Result<TokenOutcome, StreamFault>)
    ensures
        outcome_matches(spec_outcome(provider, event.name_view(), event.data@), r),
{
    match provider {
        ApiProvider::Anthropic(_) => anthropic_extract(&event),
        ApiProvider::OpenAI(_) => openai_extract(&event),
    }
}

} // verus!
