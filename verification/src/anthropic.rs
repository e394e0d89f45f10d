//! The Anthropic-style provider adapter: it dispatches on the event name.
//! Only a `content_block_delta` event carries a token, taken from the
//! `delta.text` field of its JSON payload; every other name — known or not —
//! is a token-free event, never an error.

use vstd::prelude::*;

use crate::api::{outcome_matches, SpecOutcome, StreamFault, TokenOutcome};
use crate::sse::SSEvent;
use crate::text::str_eq;

verus! {

/// The one event name that carries a token.
pub open spec fn delta_event_name() -> Seq<char> {
    "content_block_delta"@
}

/// What an Anthropic-style `content_block_delta` payload decodes to under
/// the expected envelope `{"delta":{"text": ...}}`: the `delta.text` string,
/// or `None` when the payload is not a JSON document of that shape.
pub uninterp spec fn anthropic_delta_text_of(data: Seq<char>) -> Option<Seq<char>>;

/// Relies on serde_json: `from_str::<Value>` parses the payload — a function
/// of the payload characters alone — and `Value::pointer` looks up
/// `delta.text`.
#[verifier::external_body]
fn decode_anthropic_delta(data: &str) -> (r: Option<String>)
    ensures
        r is Some <==> anthropic_delta_text_of(data@) is Some,
        r is Some ==> r.unwrap()@ == anthropic_delta_text_of(data@).unwrap(),
{
    let v: serde_json::Value = match serde_json::from_str(data) {
        Ok(v) => v,
        Err(_) => return None,
    };
    match v.pointer("/delta/text") {
        Some(serde_json::Value::String(s)) => Some(s.clone()),
        Some(_) => None,
        None => None,
    }
}

/// The outcome of one Anthropic-style event: only a `content_block_delta`
/// event carries a token; every other name, or none, is a token-free event.
pub open spec fn spec_anthropic_outcome(name: Option<Seq<char>>, data: Seq<char>) -> SpecOutcome {
    match name {
        Some(nm) => if nm == delta_event_name() {
            match anthropic_delta_text_of(data) {
                Some(t) => SpecOutcome::Token(t),
                None => SpecOutcome::Bad,
            }
        } else {
            SpecOutcome::NoToken
        },
        None => SpecOutcome::NoToken,
    }
}

/// Extracts the token outcome of one Anthropic-style event.
pub fn anthropic_extract(event: &SSEvent) -> (r: Result<TokenOutcome, StreamFault>)
    ensures
        outcome_matches(spec_anthropic_outcome(event.name_view(), event.data@), r),
{
    let named = match &event.event {
        Some(nm) => str_eq(nm.as_str(), "content_block_delta"),
        None => false,
    };
    if !named {
        return Ok(TokenOutcome::NoToken);
    }
    match decode_anthropic_delta(event.data.as_str()) {
        Some(t) => Ok(TokenOutcome::Token(t)),
        None => Err(StreamFault::PayloadDecodeError),
    }
}

} // verus!
