use jarvis_core::chat::{
    ChatMessage, ConfigError, LlmClient, LlmError, DEFAULT_BASE_URL, DEFAULT_MODEL, ENV_TOKEN,
};

#[test]
fn chat_message_helpers_set_role() {
    assert_eq!(ChatMessage::user("hi").role, "user");
    assert_eq!(ChatMessage::system("ctx").role, "system");
    assert_eq!(ChatMessage::assistant("ok").role, "assistant");
}

#[test]
fn chat_message_helpers_keep_content() {
    assert_eq!(ChatMessage::user("hi").content, "hi");
    let m = ChatMessage::assistant("ok");
    let d = m.duplicate();
    assert_eq!(d.role, "assistant");
    assert_eq!(d.content, "ok");
}

#[test]
fn from_env_fails_when_token_missing() {
    let result = LlmClient::from_env(None, None, None);
    let err = match result {
        Ok(_) => panic!("expected ConfigError when {} is unset", ENV_TOKEN),
        Err(e) => e,
    };
    match err {
        ConfigError::MissingEnv(name) => assert_eq!(name, ENV_TOKEN),
    }
}

#[test]
fn from_env_uses_defaults() {
    let c = LlmClient::from_env(Some("tok".to_string()), None, None).unwrap();
    assert_eq!(c.model(), DEFAULT_MODEL);
    assert_eq!(c.api_key(), "tok");
    assert_eq!(c.completions_url(), format!("{}/chat/completions", DEFAULT_BASE_URL));
}

#[test]
fn from_env_uses_overrides() {
    let c = LlmClient::from_env(
        Some("tok".to_string()),
        Some("http://localhost:8080/v1/".to_string()),
        Some("small".to_string()),
    )
    .unwrap();
    assert_eq!(c.model(), "small");
    assert_eq!(c.completions_url(), "http://localhost:8080/v1/chat/completions");
}

#[test]
fn completions_url_strips_every_trailing_slash() {
    let c = LlmClient::new("https://h/v1///", "k", "m");
    assert_eq!(c.completions_url(), "https://h/v1/chat/completions");
    let c = LlmClient::new("", "k", "m");
    assert_eq!(c.completions_url(), "/chat/completions");
}

#[test]
fn check_status_passes_only_success() {
    assert_eq!(LlmClient::check_status(200, "b".to_string()).unwrap(), "b");
    assert_eq!(LlmClient::check_status(299, "b".to_string()).unwrap(), "b");
    match LlmClient::check_status(429, "slow down".to_string()) {
        Err(LlmError::Api { status, body }) => {
            assert_eq!(status, 429);
            assert_eq!(body, "slow down");
        }
        other => panic!("unexpected {:?}", other),
    }
    assert!(matches!(LlmClient::check_status(199, String::new()), Err(LlmError::Api { .. })));
    assert!(matches!(LlmClient::check_status(300, String::new()), Err(LlmError::Api { .. })));
}

#[test]
fn pick_reply_takes_first_choice() {
    let r = LlmClient::pick_reply(Ok(vec!["Hello there!".to_string(), "second".to_string()]));
    assert_eq!(r.unwrap(), "Hello there!");
    assert!(matches!(LlmClient::pick_reply(Ok(vec![])), Err(LlmError::EmptyResponse)));
    match LlmClient::pick_reply(Err("bad json".to_string())) {
        Err(LlmError::Deserialize(m)) => assert_eq!(m, "bad json"),
        other => panic!("unexpected {:?}", other),
    }
}
