//! The OpenAI-style provider adapter: the event name is ignored, the literal
//! payload `[DONE]` is the end-of-stream sentinel, and any other payload must
//! be a JSON envelope whose first choice may carry a `delta.content` token.

use vstd::prelude::*;

use crate::api::{outcome_matches, SpecOutcome, StreamFault, TokenOutcome};
use crate::sse::SSEvent;
use crate::text::str_eq;

verus! {

/// The end-of-stream sentinel payload.
pub open spec fn done_sentinel() -> Seq<char> {
    "[DONE]"@
}

/// What an OpenAI-style payload decodes to under the expected envelope
/// `{"choices":[{"delta":{"content": ...}}, ...]}`: `None` when the payload
/// is not a JSON document of that shape, `Some(None)` when the first choice
/// carries no `delta.content` text (absent or null), and `Some(Some(t))`
/// when it carries the token `t`.
pub uninterp spec fn openai_delta_content_of(data: Seq<char>) -> Option<Option<Seq<char>>>;

/// Relies on serde_json: `from_str::<Value>` parses the payload — a function
/// of the payload characters alone — and `Value::pointer` / `Value::get`
/// look up `choices[0].delta` and its `content` field.
#[verifier::external_body]
fn decode_openai_delta(data: &str) -> (r: Option<Option<String>>)
    ensures
        r is Some <==> openai_delta_content_of(data@) is Some,
        r is Some ==> (r.unwrap() is Some <==> openai_delta_content_of(data@).unwrap() is Some),
        (r is Some && r.unwrap() is Some) ==> r.unwrap().unwrap()@ == openai_delta_content_of(
            data@,
        ).unwrap().unwrap(),
{
    let v: serde_json::Value = match serde_json::from_str(data) {
        Ok(v) => v,
        Err(_) => return None,
    };
    let delta = match v.pointer("/choices/0/delta") {
        Some(d) => d,
        None => return None,
    };
    match delta.get("content") {
        None => Some(None),
        Some(serde_json::Value::Null) => Some(None),
        Some(serde_json::Value::String(s)) => Some(Some(s.clone())),
        Some(_) => None,
    }
}

/// The outcome of one OpenAI-style event: the payload alone decides.
pub open spec fn spec_openai_outcome(data: Seq<char>) -> SpecOutcome {
    if data == done_sentinel() {
        SpecOutcome::Done
    } else {
        match openai_delta_content_of(data) {
            None => SpecOutcome::Bad,
            Some(None) => SpecOutcome::NoToken,
            Some(Some(t)) => SpecOutcome::Token(t),
        }
    }
}

/// Extracts the token outcome of one OpenAI-style event.
pub fn openai_extract(event: &SSEvent) -> (r: Result<TokenOutcome, StreamFault>)
    ensures
        outcome_matches(spec_openai_outcome(event.data@), r),
{
    if str_eq(event.data.as_str(), "[DONE]") {
        return Ok(TokenOutcome::StreamDone);
    }
    match decode_openai_delta(event.data.as_str()) {
        None => Err(StreamFault::PayloadDecodeError),
        Some(None) => Ok(TokenOutcome::NoToken),
        Some(Some(t)) => Ok(TokenOutcome::Token(t)),
    }
}

} // verus!
