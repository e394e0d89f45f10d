use sse_relay::{process_sse, ApiProvider, SSEvent, StreamFault, TokenOutcome};

fn openai() -> ApiProvider {
    ApiProvider::OpenAI("key".to_string())
}

fn anthropic() -> ApiProvider {
    ApiProvider::Anthropic("key".to_string())
}

fn event(name: Option<&str>, data: &str) -> SSEvent {
    SSEvent { event: name.map(|n| n.to_string()), data: data.to_string() }
}

#[test]
fn openai_delta_content_is_a_token() {
    let payload = "{\"id\":\"x\",\"object\":\"chat.completion.chunk\",\"created\":1,\"model\":\"m\",\"choices\":[{\"delta\":{\"content\":\"Hi\"},\"index\":0,\"finish_reason\":null}]}";
    match process_sse(&openai(), event(None, payload)) {
        Ok(TokenOutcome::Token(t)) => assert_eq!(t, "Hi"),
        other => panic!("expected a token, got {:?}", other),
    }
}

#[test]
fn openai_done_sentinel_ends_the_stream() {
    match process_sse(&openai(), event(None, "[DONE]")) {
        Ok(TokenOutcome::StreamDone) => {}
        other => panic!("expected the end of the stream, got {:?}", other),
    }
}

#[test]
fn openai_null_content_is_no_token() {
    let payload = "{\"choices\":[{\"delta\":{\"content\":null},\"index\":0,\"finish_reason\":null}]}";
    match process_sse(&openai(), event(None, payload)) {
        Ok(TokenOutcome::NoToken) => {}
        other => panic!("expected no token, got {:?}", other),
    }
}

#[test]
fn openai_absent_content_is_no_token() {
    let payload = "{\"choices\":[{\"delta\":{},\"index\":0,\"finish_reason\":\"stop\"}]}";
    match process_sse(&openai(), event(None, payload)) {
        Ok(TokenOutcome::NoToken) => {}
        other => panic!("expected no token, got {:?}", other),
    }
}

#[test]
fn openai_invalid_json_is_a_decode_error() {
    match process_sse(&openai(), event(None, "{nope")) {
        Err(StreamFault::PayloadDecodeError) => {}
        other => panic!("expected a decode error, got {:?}", other),
    }
}

#[test]
fn openai_missing_choice_is_a_decode_error() {
    match process_sse(&openai(), event(None, "{\"choices\":[]}")) {
        Err(StreamFault::PayloadDecodeError) => {}
        other => panic!("expected a decode error, got {:?}", other),
    }
}

#[test]
fn openai_ignores_the_event_name() {
    let payload = "{\"choices\":[{\"delta\":{\"content\":\"ok\"},\"index\":0,\"finish_reason\":null}]}";
    match process_sse(&openai(), event(Some("anything"), payload)) {
        Ok(TokenOutcome::Token(t)) => assert_eq!(t, "ok"),
        other => panic!("expected a token, got {:?}", other),
    }
}

#[test]
fn anthropic_delta_text_is_a_token() {
    match process_sse(&anthropic(), event(Some("content_block_delta"), "{\"delta\":{\"text\":\"Hi\"}}")) {
        Ok(TokenOutcome::Token(t)) => assert_eq!(t, "Hi"),
        other => panic!("expected a token, got {:?}", other),
    }
}

#[test]
fn anthropic_message_stop_is_no_token_whatever_the_payload() {
    match process_sse(&anthropic(), event(Some("message_stop"), "{nope")) {
        Ok(TokenOutcome::NoToken) => {}
        other => panic!("expected no token, got {:?}", other),
    }
    match process_sse(&anthropic(), event(Some("message_stop"), "{}")) {
        Ok(TokenOutcome::NoToken) => {}
        other => panic!("expected no token, got {:?}", other),
    }
}

#[test]
fn anthropic_unknown_name_is_no_token() {
    match process_sse(&anthropic(), event(Some("brand_new_event_kind"), "{}")) {
        Ok(TokenOutcome::NoToken) => {}
        other => panic!("expected no token, got {:?}", other),
    }
}

#[test]
fn anthropic_unnamed_event_is_no_token() {
    match process_sse(&anthropic(), event(None, "{\"delta\":{\"text\":\"Hi\"}}")) {
        Ok(TokenOutcome::NoToken) => {}
        other => panic!("expected no token, got {:?}", other),
    }
}

#[test]
fn anthropic_bad_delta_payload_is_a_decode_error() {
    match process_sse(&anthropic(), event(Some("content_block_delta"), "{nope")) {
        Err(StreamFault::PayloadDecodeError) => {}
        other => panic!("expected a decode error, got {:?}", other),
    }
    match process_sse(&anthropic(), event(Some("content_block_delta"), "{\"delta\":{}}")) {
        Err(StreamFault::PayloadDecodeError) => {}
        other => panic!("expected a decode error, got {:?}", other),
    }
}
