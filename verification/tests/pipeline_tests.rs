use sse_relay::{ApiProvider, StreamFault, StreamState, StreamStatus};

fn anthropic() -> ApiProvider {
    ApiProvider::Anthropic("key".to_string())
}

fn openai() -> ApiProvider {
    ApiProvider::OpenAI("key".to_string())
}

/// Feeds every chunk in order and collects all tokens and the last status.
fn run(provider: &ApiProvider, chunks: &[&[u8]]) -> (Vec<String>, StreamStatus) {
    let mut state = StreamState::new();
    let mut tokens: Vec<String> = Vec::new();
    let mut status = StreamStatus::Open;
    for chunk in chunks {
        let (mut emitted, st) = state.ingest_chunk(provider, chunk);
        tokens.append(&mut emitted);
        status = st;
        if status != StreamStatus::Open {
            break;
        }
    }
    (tokens, status)
}

#[test]
fn anthropic_two_chunks_end_to_end() {
    let c1 = "event: content_block_delta\ndata: {\"delta\":{\"text\":\"He\"}}\n\n";
    let c2 = "event: content_block_delta\ndata: {\"delta\":{\"text\":\"llo\"}}\n\nevent: message_stop\ndata: {}\n\n";
    let (tokens, status) = run(&anthropic(), &[c1.as_bytes(), c2.as_bytes()]);
    assert_eq!(tokens, vec!["He".to_string(), "llo".to_string()]);
    assert_eq!(status, StreamStatus::Open);
}

#[test]
fn rechunking_yields_identical_tokens() {
    let text = "event: content_block_delta\ndata: {\"delta\":{\"text\":\"He\"}}\n\nevent: content_block_delta\ndata: {\"delta\":{\"text\":\"llo\"}}\n\nevent: message_stop\ndata: {}\n\n";
    let whole = run(&anthropic(), &[text.as_bytes()]);
    // split inside the delimiter, inside a line, and at every third byte
    let bytes = text.as_bytes();
    for split in [1usize, 10, 57, 58, bytes.len() - 1] {
        let parts = run(&anthropic(), &[&bytes[..split], &bytes[split..]]);
        assert_eq!(parts, whole);
    }
    let thirds: Vec<&[u8]> = bytes.chunks(3).collect();
    assert_eq!(run(&anthropic(), &thirds), whole);
}

#[test]
fn tokens_keep_event_order() {
    let text = "data: {\"choices\":[{\"delta\":{\"content\":\"a\"},\"index\":0,\"finish_reason\":null}]}\n\ndata: {\"choices\":[{\"delta\":{\"content\":\"b\"},\"index\":0,\"finish_reason\":null}]}\n\ndata: {\"choices\":[{\"delta\":{\"content\":\"c\"},\"index\":0,\"finish_reason\":null}]}\n\n";
    let (tokens, status) = run(&openai(), &[text.as_bytes()]);
    assert_eq!(tokens, vec!["a".to_string(), "b".to_string(), "c".to_string()]);
    assert_eq!(status, StreamStatus::Open);
}

#[test]
fn done_sentinel_stops_buffered_tokens() {
    let text = "data: {\"choices\":[{\"delta\":{\"content\":\"a\"},\"index\":0,\"finish_reason\":null}]}\n\ndata: [DONE]\n\ndata: {\"choices\":[{\"delta\":{\"content\":\"late\"},\"index\":0,\"finish_reason\":null}]}\n\n";
    let mut state = StreamState::new();
    let (tokens, status) = state.ingest_chunk(&openai(), text.as_bytes());
    assert_eq!(tokens, vec!["a".to_string()]);
    assert_eq!(status, StreamStatus::Done);
    // the stream stays terminated: further chunks emit nothing
    let late = "data: {\"choices\":[{\"delta\":{\"content\":\"x\"},\"index\":0,\"finish_reason\":null}]}\n\n";
    let (tokens, status) = state.ingest_chunk(&openai(), late.as_bytes());
    assert!(tokens.is_empty());
    assert_eq!(status, StreamStatus::Done);
}

#[test]
fn malformed_block_fails_the_stream() {
    let text = "not-an-event-line\n\ndata: [DONE]\n\n";
    let mut state = StreamState::new();
    let (tokens, status) = state.ingest_chunk(&anthropic(), text.as_bytes());
    assert!(tokens.is_empty());
    assert_eq!(status, StreamStatus::Failed(StreamFault::MalformedEventError));
    let (tokens, status) = state.ingest_chunk(&anthropic(), b"more\n\n");
    assert!(tokens.is_empty());
    assert_eq!(status, StreamStatus::Done);
}

#[test]
fn tokens_before_a_fault_are_kept() {
    let text = "event: content_block_delta\ndata: {\"delta\":{\"text\":\"He\"}}\n\nevent: content_block_delta\ndata: {nope}\n\n";
    let mut state = StreamState::new();
    let (tokens, status) = state.ingest_chunk(&anthropic(), text.as_bytes());
    assert_eq!(tokens, vec!["He".to_string()]);
    assert_eq!(status, StreamStatus::Failed(StreamFault::PayloadDecodeError));
}

#[test]
fn chunk_split_inside_a_character_is_a_decoding_error() {
    let text = "event: content_block_delta\ndata: {\"delta\":{\"text\":\"\u{e9}\"}}\n\n";
    let bytes = text.as_bytes();
    // find the two-byte character and split inside it
    let split = text.find('\u{e9}').unwrap() + 1;
    let mut state = StreamState::new();
    let (tokens, status) = state.ingest_chunk(&anthropic(), &bytes[..split]);
    assert!(tokens.is_empty());
    assert_eq!(status, StreamStatus::Failed(StreamFault::DecodingError));
    // consistent wherever the surrounding chunking put the boundary
    let mut state = StreamState::new();
    let (_, status) = state.ingest_chunk(&anthropic(), &bytes[..split - 1]);
    assert_eq!(status, StreamStatus::Open);
    let (tokens, status) = state.ingest_chunk(&anthropic(), &bytes[split - 1..split]);
    assert!(tokens.is_empty());
    assert_eq!(status, StreamStatus::Failed(StreamFault::DecodingError));
}

#[test]
fn empty_trailing_block_is_skipped() {
    // a fully delimited stream leaves an empty accumulator and no stray token
    let text = "event: content_block_delta\ndata: {\"delta\":{\"text\":\"x\"}}\n\n";
    let (tokens, status) = run(&anthropic(), &[text.as_bytes()]);
    assert_eq!(tokens, vec!["x".to_string()]);
    assert_eq!(status, StreamStatus::Open);
}

#[test]
fn multibyte_token_crossing_chunks() {
    let text = "event: content_block_delta\ndata: {\"delta\":{\"text\":\"\u{e9}\u{1f600}\"}}\n\n";
    let bytes = text.as_bytes();
    // split between two characters (a valid boundary)
    let split = text.find('\u{1f600}').unwrap();
    let (tokens, status) = run(&anthropic(), &[&bytes[..split], &bytes[split..]]);
    assert_eq!(tokens, vec!["\u{e9}\u{1f600}".to_string()]);
    assert_eq!(status, StreamStatus::Open);
}
