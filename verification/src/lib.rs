//! A verified core for a streaming chat client: reassembles Server-Sent-Event
//! blocks from arbitrarily chunked bytes, parses each block, extracts the
//! provider-specific token fragment, and reports a uniform stream of text
//! tokens together with an explicit terminal status.

pub mod anthropic;
pub mod api;
pub mod buffer;
pub mod openai;
pub mod relay;
pub mod sse;
pub mod text;
pub mod transcript;

pub use api::ApiProvider;
pub use api::ChatMessage;
pub use api::ChatRequest;
pub use api::ChatRole;
pub use api::StreamFault;
pub use api::StreamStatus;
pub use api::TokenOutcome;
pub use api::process_sse;
pub use buffer::convert_chunk;
pub use buffer::process_buffer;
pub use relay::StreamState;
pub use sse::convert_sse;
pub use sse::SSEvent;
pub use transcript::get_default_prompt;
pub use transcript::match_separator;
pub use transcript::parse_transcript;
pub use transcript::structure_request;
