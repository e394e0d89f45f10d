use sse_relay::{get_default_prompt, match_separator, parse_transcript, structure_request, ChatRole};

const DEFAULT_PROMPT: &str = "You are a helpful assistant who provides brief explanations and short code snippets for linux command-line tools and languages like neovim, Docker, rust and python. Your user is an expert programmer. You do not show lengthy steps or setup instructions. Only provide answers in cases where you know the answer. Feel free to say \"I don't know.\" Do not suggest contacting support.";

#[test]
fn separators_name_their_roles() {
    assert_eq!(match_separator("===SYSTEM==="), Some(ChatRole::System));
    assert_eq!(match_separator("===USER==="), Some(ChatRole::User));
    assert_eq!(match_separator("===ASSISSTANT==="), Some(ChatRole::Assistant));
    assert_eq!(match_separator("===OTHER==="), None);
    assert_eq!(match_separator("hello"), None);
    assert_eq!(match_separator(""), None);
}

#[test]
fn default_prompt_text() {
    assert_eq!(get_default_prompt(), DEFAULT_PROMPT);
}

#[test]
fn transcript_lines_accumulate_per_role() {
    let lines = vec![
        "hello".to_string(),
        "there".to_string(),
        "===ASSISSTANT===".to_string(),
        "hi".to_string(),
    ];
    let req = parse_transcript(ChatRole::User, &lines);
    assert_eq!(req.system_prompt, DEFAULT_PROMPT);
    assert_eq!(req.transcript.len(), 2);
    assert_eq!(req.transcript[0].role, ChatRole::User);
    assert_eq!(req.transcript[0].content, "hello\nthere\n");
    assert_eq!(req.transcript[1].role, ChatRole::Assistant);
    assert_eq!(req.transcript[1].content, "hi\n");
}

#[test]
fn leading_system_section_becomes_the_prompt() {
    let lines = vec![
        "be brief".to_string(),
        "===USER===".to_string(),
        "hi".to_string(),
    ];
    let req = parse_transcript(ChatRole::System, &lines);
    assert_eq!(req.system_prompt, "be brief\n");
    assert_eq!(req.transcript.len(), 1);
    assert_eq!(req.transcript[0].role, ChatRole::User);
    assert_eq!(req.transcript[0].content, "hi\n");
}

#[test]
fn input_without_separator_is_one_user_message() {
    let input = "what is a monad?\nplease be brief";
    let req = structure_request(input);
    assert_eq!(req.system_prompt, DEFAULT_PROMPT);
    assert_eq!(req.transcript.len(), 1);
    assert_eq!(req.transcript[0].role, ChatRole::User);
    assert_eq!(req.transcript[0].content, input);
}

#[test]
fn input_with_leading_separator_is_a_transcript() {
    let input = "===SYSTEM===\nbe brief\n===USER===\nhi";
    let req = structure_request(input);
    assert_eq!(req.system_prompt, "be brief\n");
    assert_eq!(req.transcript.len(), 1);
    assert_eq!(req.transcript[0].role, ChatRole::User);
    assert_eq!(req.transcript[0].content, "hi\n");
}

#[test]
fn empty_input_is_one_empty_user_message() {
    let req = structure_request("");
    assert_eq!(req.system_prompt, DEFAULT_PROMPT);
    assert_eq!(req.transcript.len(), 1);
    assert_eq!(req.transcript[0].role, ChatRole::User);
    assert_eq!(req.transcript[0].content, "");
}
