use vstd::prelude::*;

use crate::text::{lemma_trim_end_char_shape, trim_end_char, trim_end_matches_char};

verus! {

/// Endpoint used when no base URL is configured.
pub const DEFAULT_BASE_URL: &'static str = "https://api.groq.com/openai/v1";

/// Model used when none is configured.
pub const DEFAULT_MODEL: &'static str = "llama-3.3-70b-versatile";

/// Environment variable that holds the API token.
pub const ENV_TOKEN: &'static str = "GROQ_TOKEN";

/// Environment variable that overrides the base URL.
pub const ENV_BASE_URL: &'static str = "GROQ_BASE_URL";

/// Environment variable that overrides the model.
pub const ENV_MODEL: &'static str = "GROQ_MODEL";

/// Why a client could not be configured.
#[derive(Debug)]
pub enum ConfigError {
    MissingEnv(&'static str),
}

/// Why a completion request failed.
#[derive(Debug)]
pub enum LlmError {
    /// The request could not be sent or its body not read.
    Http(String),
    /// The body of a successful response was not the expected JSON.
    Deserialize(String),
    /// The endpoint answered with a status outside 200..=299.
    Api { status: u16, body: String },
    /// The response held no choice.
    EmptyResponse,
}

/// One message of a chat: who speaks (`system`, `user` or `assistant`) and
/// what is said.
#[derive(Debug, Clone)]
pub struct ChatMessage {
    pub role: String,
    pub content: String,
}

/// The abstract value of a [`ChatMessage`].
pub ghost struct MessageView {
    pub role: Seq<char>,
    pub content: Seq<char>,
}

impl View for ChatMessage {
    type V = MessageView;

    open spec fn view(&self) -> MessageView {
        MessageView { role: self.role@, content: self.content@ }
    }
}

pub open spec fn user_message(content: Seq<char>) -> MessageView {
    MessageView { role: "user"@, content }
}

pub open spec fn system_message(content: Seq<char>) -> MessageView {
    MessageView { role: "system"@, content }
}

pub open spec fn assistant_message(content: Seq<char>) -> MessageView {
    MessageView { role: "assistant"@, content }
}

/// The views of a sequence of messages.
pub open spec fn message_views(s: Seq<ChatMessage>) -> Seq<MessageView> {
    s.map_values(|m: ChatMessage| m@)
}

impl ChatMessage {
    pub fn user(content: &str) -> (m: Self)
        ensures
            m@ == user_message(content@),
    {
        ChatMessage { role: String::from_str("user"), content: String::from_str(content) }
    }

    pub fn system(content: &str) -> (m: Self)
        ensures
            m@ == system_message(content@),
    {
        ChatMessage { role: String::from_str("system"), content: String::from_str(content) }
    }

    pub fn assistant(content: &str) -> (m: Self)
        ensures
            m@ == assistant_message(content@),
    {
        ChatMessage { role: String::from_str("assistant"), content: String::from_str(content) }
    }

    /// A copy of the message.
    pub fn duplicate(&self) -> (m: Self)
        ensures
            m@ == self@,
    {
        ChatMessage { role: self.role.clone(), content: self.content.clone() }
    }
}

/// A client for an OpenAI-compatible chat-completions endpoint: where it
/// sends requests, with which token, for which model.
pub struct LlmClient {
    base_url: String,
    api_key: String,
    model: String,
}

/// The abstract value of an [`LlmClient`].
pub ghost struct ClientView {
    pub base_url: Seq<char>,
    pub api_key: Seq<char>,
    pub model: Seq<char>,
}

impl View for LlmClient {
    type V = ClientView;

    closed spec fn view(&self) -> ClientView {
        ClientView { base_url: self.base_url@, api_key: self.api_key@, model: self.model@ }
    }
}

/// The value of an optional setting, or its default.
pub open spec fn or_default(v: Option<String>, default: Seq<char>) -> Seq<char> {
    match v {
        Some(s) => s@,
        None => default,
    }
}

/// The URL of the chat-completions endpoint under a base URL.
pub open spec fn completions_url_of(base_url: Seq<char>) -> Seq<char> {
    trim_end_char(base_url, '/') + "/chat/completions"@
}

/// Whether an HTTP status is a success (2xx).
pub open spec fn is_success(status: u16) -> bool {
    200 <= status <= 299
}

/// The completions URL is the base URL with its trailing slashes removed
/// (and only those), then `/chat/completions`.
pub proof fn lemma_completions_url_shape(base_url: Seq<char>)
    ensures
        ({
            let p = trim_end_char(base_url, '/');
            &&& completions_url_of(base_url) == p + "/chat/completions"@
            &&& base_url.take(p.len() as int) == p
            &&& p.len() > 0 ==> p.last() != '/'
            &&& forall|k: int| p.len() <= k < base_url.len() ==> #[trigger] base_url[k] == '/'
        }),
{
    lemma_trim_end_char_shape(base_url, '/');
}

impl LlmClient {
    pub fn new(base_url: &str, api_key: &str, model: &str) -> (c: Self)
        ensures
            c@ == (ClientView { base_url: base_url@, api_key: api_key@, model: model@ }),
    {
        LlmClient {
            base_url: String::from_str(base_url),
            api_key: String::from_str(api_key),
            model: String::from_str(model),
        }
    }

    /// Configures a client from the values of the environment variables
    /// `ENV_TOKEN`, `ENV_BASE_URL` and `ENV_MODEL` (each `None` where unset):
    /// the token is required, the other two fall back to their defaults.
    pub fn from_env(token: Option<String>, base_url: Option<String>, model: Option<String>) -> (r:
        Result<Self, ConfigError>)
        ensures
            token is None <==> r is Err,
            r matches Err(e) ==> e == ConfigError::MissingEnv(ENV_TOKEN),
            r matches Ok(c) ==> c@ == (ClientView {
                base_url: or_default(base_url, DEFAULT_BASE_URL@),
                api_key: token->0@,
                model: or_default(model, DEFAULT_MODEL@),
            }),
    {
        let api_key = match token {
            Some(t) => t,
            None => return Err(ConfigError::MissingEnv(ENV_TOKEN)),
        };
        let base_url = match base_url {
            Some(b) => b,
            None => String::from_str(DEFAULT_BASE_URL),
        };
        let model = match model {
            Some(m) => m,
            None => String::from_str(DEFAULT_MODEL),
        };
        Ok(LlmClient { base_url, api_key, model })
    }

    pub fn model(&self) -> (r: &str)
        ensures
            r@ == self@.model,
    {
        self.model.as_str()
    }

    pub fn api_key(&self) -> (r: &str)
        ensures
            r@ == self@.api_key,
    {
        self.api_key.as_str()
    }

    /// The URL a completion request goes to: the base URL without trailing
    /// slashes, then `/chat/completions`.
    pub fn completions_url(&self) -> (r: String)
        ensures
            r@ == completions_url_of(self@.base_url),
    {
        let mut url = trim_end_matches_char(self.base_url.as_str(), '/');
        url.append("/chat/completions");
        url
    }

    /// What a completion request gives, once the HTTP exchange is over: a
    /// status outside 2xx is an API error carrying the body; otherwise the
    /// body's parse decides.
    pub fn check_status(status: u16, body: String) -> (r: Result<String, LlmError>)
        ensures
            match r {
                Ok(b) => is_success(status) && b@ == body@,
                Err(LlmError::Api { status: s, body: b }) => !is_success(status) && s == status
                    && b@ == body@,
                Err(_) => false,
            },
    {
        if 200 <= status && status <= 299 {
            Ok(body)
        } else {
            Err(LlmError::Api { status, body })
        }
    }

    /// The reply of a parsed response: the content of its first choice, an
    /// empty response error when it has no choice, or the parse error.
    pub fn pick_reply(parsed: Result<Vec<String>, String>) -> (r: Result<String, LlmError>)
        ensures
            match parsed {
                Err(e) => r matches Err(LlmError::Deserialize(m)) && m@ == e@,
                Ok(v) => if v.len() == 0 {
                    r matches Err(LlmError::EmptyResponse)
                } else {
                    r matches Ok(s) && s@ == v[0]@
                },
            },
    {
        match parsed {
            Err(e) => Err(LlmError::Deserialize(e)),
            Ok(choices) => {
                if choices.len() == 0 {
                    Err(LlmError::EmptyResponse)
                } else {
                    Ok(choices[0].clone())
                }
            },
        }
    }
}

} // verus!
