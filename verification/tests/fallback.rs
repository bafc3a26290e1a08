use jarvis_core::chat::{ConfigError, LlmClient, LlmError};
use jarvis_core::fallback::{
    extract_prompt, extract_prompt_lowered, handle, handle_outcome, init, is_enabled,
    FallbackReply,
};
use jarvis_core::history::ConversationHistory;

fn triggers(ts: &[&str]) -> Vec<String> {
    ts.iter().map(|t| t.to_string()).collect()
}

#[test]
fn extract_prompt_after_trigger() {
    let t = triggers(&["спроси", "ask"]);
    assert_eq!(extract_prompt("  Ask what time it is ", &t), Some("what time it is".to_string()));
    assert_eq!(extract_prompt("СПРОСИ, как дела?", &t), Some(", как дела?".to_string()));
}

#[test]
fn extract_prompt_needs_a_whole_word_trigger() {
    let t = triggers(&["ask"]);
    assert_eq!(extract_prompt("asking for trouble", &t), None);
    assert_eq!(extract_prompt("ask2 me", &t), None);
    assert_eq!(extract_prompt("ask: me", &t), Some(": me".to_string()));
}

#[test]
fn extract_prompt_skips_a_trigger_with_nothing_after_it() {
    let t = triggers(&["ask", "ask me"]);
    // "ask" matches but what follows is only white space after the second trigger
    // is tried: "ask me" leaves nothing, "ask" leaves "me".
    assert_eq!(extract_prompt("ask me", &t), Some("me".to_string()));
    let t = triggers(&["ask me", "ask"]);
    assert_eq!(extract_prompt("ask me", &t), Some("me".to_string()));
    assert_eq!(extract_prompt("ask   ", &triggers(&["ask"])), None);
}

#[test]
fn extract_prompt_without_matching_trigger() {
    assert_eq!(extract_prompt("hello there", &triggers(&["ask"])), None);
    assert_eq!(extract_prompt("hello there", &[]), None);
    assert_eq!(extract_prompt("", &triggers(&["ask"])), None);
}

#[test]
fn extract_prompt_lowered_does_not_lowercase() {
    let t = triggers(&["ask"]);
    assert_eq!(extract_prompt_lowered("ASK me", &t), None);
    assert_eq!(extract_prompt_lowered("ask Me", &t), Some("Me".to_string()));
}

#[test]
fn extract_prompt_lowercases_the_text() {
    assert_eq!(extract_prompt("ASK Me", &triggers(&["ask"])), Some("me".to_string()));
}

fn client() -> LlmClient {
    LlmClient::new("https://h/v1", "key", "model")
}

#[test]
fn init_needs_enabled_and_client() {
    assert!(init(false, Ok(client()), "sys", 4, 256).is_none());
    assert!(init(true, Err(ConfigError::MissingEnv("GROQ_TOKEN")), "sys", 4, 256).is_none());
    let s = init(true, Ok(client()), "sys", 4, 256);
    assert!(is_enabled(&s));
    let s = s.unwrap();
    assert_eq!(s.max_tokens, 256);
    assert_eq!(s.client.model(), "model");
    let snap = s.history.snapshot();
    assert_eq!(snap.len(), 1);
    assert_eq!(snap[0].role, "system");
    assert_eq!(snap[0].content, "sys");
    assert!(!is_enabled(&None));
}

#[test]
fn handle_records_prompt_and_returns_snapshot() {
    let mut h = ConversationHistory::new("sys", 4);
    let msgs = handle(&mut h, "what time is it");
    assert_eq!(msgs.len(), 2);
    assert_eq!(msgs[0].role, "system");
    assert_eq!(msgs[1].role, "user");
    assert_eq!(msgs[1].content, "what time is it");
    assert_eq!(h.turns().len(), 1);
}

#[test]
fn answered_request_records_trimmed_reply() {
    let mut h = ConversationHistory::new("sys", 4);
    handle(&mut h, "q");
    match handle_outcome(&mut h, Ok("  noon \n".to_string()), "sorry") {
        FallbackReply::Answer(a) => assert_eq!(a, "noon"),
        other => panic!("unexpected {:?}", other),
    }
    let turns = h.turns();
    assert_eq!(turns.len(), 2);
    assert_eq!(turns[1].role, "assistant");
    assert_eq!(turns[1].content, "noon");
}

#[test]
fn failed_request_takes_back_the_prompt() {
    let mut h = ConversationHistory::new("sys", 4);
    handle(&mut h, "q1");
    handle_outcome(&mut h, Ok("r1".to_string()), "sorry");
    handle(&mut h, "q2");
    match handle_outcome(&mut h, Err(LlmError::EmptyResponse), "sorry") {
        FallbackReply::Failed(m) => assert_eq!(m, "sorry"),
        other => panic!("unexpected {:?}", other),
    }
    let contents: Vec<&str> = h.turns().iter().map(|m| m.content.as_str()).collect();
    assert_eq!(contents, vec!["q1", "r1"]);
}
