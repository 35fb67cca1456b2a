//! Request and response records of the chat API, and their validation.
use vstd::prelude::*;
use crate::error::Error;
use crate::text::{chars_of, lower_of, lowercase};

verus! {

/// Who wrote a message.
#[derive(Debug, Clone, Copy, PartialEq, Eq, Structural)]
pub enum Role {
    System,
    User,
    Assistant,
}

/// The role that a lower-cased role name stands for; any other name is a user.
pub open spec fn role_of_lowered(s: Seq<char>) -> Role {
    if s == "system"@ {
        Role::System
    } else if s == "assistant"@ {
        Role::Assistant
    } else {
        Role::User
    }
}

/// The role for an already lower-cased name.
pub fn role_from_lowered(s: &str) -> (r: Role)
    ensures
        r == role_of_lowered(s@),
{
    let v = chars_of(s);
    let sys = chars_of("system");
    let asst = chars_of("assistant");
    if crate::text::seq_eq(&v, &sys) {
        Role::System
    } else if crate::text::seq_eq(&v, &asst) {
        Role::Assistant
    } else {
        Role::User
    }
}

impl Role {
    /// The role named by `s`, in any letter case; unknown names map to `User`.
    pub fn from_string(s: String) -> (r: Role)
        ensures
            r == role_of_lowered(lower_of(s@)),
    {
        let l = lowercase(s.as_str());
        role_from_lowered(l.as_str())
    }

    pub open spec fn name(self) -> Seq<char> {
        match self {
            Role::System => "system"@,
            Role::User => "user"@,
            Role::Assistant => "assistant"@,
        }
    }

    /// The lower-case name of the role.
    pub fn to_string(&self) -> (r: String)
        ensures
            r@ == self.name(),
    {
        match self {
            Role::System => String::from_str("system"),
            Role::User => String::from_str("user"),
            Role::Assistant => String::from_str("assistant"),
        }
    }
}

impl From<String> for Role {
    /// The role named by `s`, in any letter case; unknown names map to `User`.
    fn from(s: String) -> (r: Role) {
        Role::from_string(s)
    }
}

impl vstd::std_specs::convert::FromSpecImpl<String> for Role {
    open spec fn obeys_from_spec() -> bool {
        true
    }

    open spec fn from_spec(s: String) -> Role {
        role_of_lowered(lower_of(s@))
    }
}

/// One chat message.
#[derive(Debug, Clone)]
pub struct Message {
    pub role: Role,
    pub content: String,
}

/// The longest message content accepted, in characters.
pub const MAX_CONTENT_CHARS: usize = 100_000;

/// The largest `max_tokens` a request may ask for.
pub const MAX_TOKENS_LIMIT: usize = 4096;

/// Temperatures, `top_p` and repeat penalties are carried in billionths,
/// fine enough that every `f32` keeps its side of each bound.
pub const TEMPERATURE_MAX_NANO: i64 = 2_000_000_000;

pub const TOP_P_MAX_NANO: i64 = 1_000_000_000;

pub const REPEAT_PENALTY_MIN_NANO: i64 = 100_000_000;

pub const REPEAT_PENALTY_MAX_NANO: i64 = 2_000_000_000;

impl Message {
    pub open spec fn is_valid(self) -> bool {
        0 < self.content@.len() <= MAX_CONTENT_CHARS
    }

    /// Accepts a message whose content is non-empty and at most
    /// `MAX_CONTENT_CHARS` characters long.
    pub fn validate(&self) -> (r: Result<(), Error>)
        ensures
            r is Ok <==> self.is_valid(),
            r matches Err(e) ==> e is BadRequest,
    {
        let n = chars_of(self.content.as_str()).len();
        if n == 0 {
            return Err(Error::BadRequest(String::from_str("Message content cannot be empty")));
        }
        if n > MAX_CONTENT_CHARS {
            return Err(
                Error::BadRequest(String::from_str("Message content too long (max 100k chars)")),
            );
        }
        Ok(())
    }
}

/// A chat-completion request. `temperature`, `top_p` and `repeat_penalty` are
/// in billionths (`700_000_000` stands for 0.7).
#[derive(Debug, Clone)]
pub struct ChatCompletionRequest {
    pub model: Option<String>,
    pub messages: Vec<Message>,
    pub temperature: Option<i64>,
    pub max_tokens: Option<usize>,
    pub stream: Option<bool>,
    pub top_p: Option<i64>,
    pub top_k: Option<i32>,
    pub repeat_penalty: Option<i64>,
}

impl ChatCompletionRequest {
    /// Every rule a request must meet before anything is done for it.
    pub open spec fn is_valid(self) -> bool {
        &&& self.messages@.len() > 0
        &&& forall|i: int| 0 <= i < self.messages@.len() ==> #[trigger] self.messages@[i].is_valid()
        &&& self.temperature matches Some(t) ==> 0 <= t <= TEMPERATURE_MAX_NANO
        &&& self.max_tokens matches Some(m) ==> 1 <= m <= MAX_TOKENS_LIMIT
        &&& self.top_p matches Some(p) ==> 0 <= p <= TOP_P_MAX_NANO
        &&& self.top_k matches Some(k) ==> k >= 1
        &&& self.repeat_penalty matches Some(p) ==> REPEAT_PENALTY_MIN_NANO <= p
            <= REPEAT_PENALTY_MAX_NANO
    }

    /// Accepts exactly the requests that meet every rule; any other is a bad request.
    pub fn validate(&self) -> (r: Result<(), Error>)
        ensures
            r is Ok <==> self.is_valid(),
            r matches Err(e) ==> e is BadRequest,
    {
        if self.messages.len() == 0 {
            return Err(Error::BadRequest(String::from_str("Messages array cannot be empty")));
        }
        let mut i: usize = 0;
        while i < self.messages.len()
            invariant
                i <= self.messages.len(),
                forall|k: int| 0 <= k < i ==> #[trigger] self.messages@[k].is_valid(),
            decreases self.messages.len() - i,
        {
            let checked = self.messages[i].validate();
            if checked.is_err() {
                return checked;
            }
            i = i + 1;
        }
        if let Some(t) = self.temperature {
            if t < 0 || t > TEMPERATURE_MAX_NANO {
                return Err(Error::BadRequest(String::from_str("Temperature must be between 0 and 2")));
            }
        }
        if let Some(m) = self.max_tokens {
            if m < 1 || m > MAX_TOKENS_LIMIT {
                return Err(Error::BadRequest(String::from_str("max_tokens must be between 1 and 4096")));
            }
        }
        if let Some(p) = self.top_p {
            if p < 0 || p > TOP_P_MAX_NANO {
                return Err(Error::BadRequest(String::from_str("top_p must be between 0 and 1")));
            }
        }
        if let Some(k) = self.top_k {
            if k < 1 {
                return Err(Error::BadRequest(String::from_str("top_k must be at least 1")));
            }
        }
        if let Some(p) = self.repeat_penalty {
            if p < REPEAT_PENALTY_MIN_NANO || p > REPEAT_PENALTY_MAX_NANO {
                return Err(
                    Error::BadRequest(String::from_str("repeat_penalty must be between 0.1 and 2.0")),
                );
            }
        }
        Ok(())
    }
}

/// Why generation ended.
#[derive(Debug, Clone, Copy, PartialEq, Eq, Structural)]
pub enum FinishReason {
    Stop,
    Length,
    ContentFilter,
    Cancelled,
    Error,
}

/// Token counts of one completion.
#[derive(Debug, Clone, Copy, PartialEq, Eq, Structural)]
pub struct Usage {
    pub prompt_tokens: usize,
    pub completion_tokens: usize,
    pub total_tokens: usize,
}

impl Usage {
    pub fn zero() -> (r: Usage)
        ensures
            r.prompt_tokens == 0 && r.completion_tokens == 0 && r.total_tokens == 0,
    {
        Usage { prompt_tokens: 0, completion_tokens: 0, total_tokens: 0 }
    }
}

/// One choice of a non-streaming response.
#[derive(Debug, Clone)]
pub struct Choice {
    pub index: usize,
    pub message: Message,
    pub finish_reason: Option<FinishReason>,
}

/// The response to a non-streaming request.
#[derive(Debug, Clone)]
pub struct ChatCompletionResponse {
    pub id: String,
    pub object: String,
    pub created: i64,
    pub model: String,
    pub choices: Vec<Choice>,
    pub usage: Usage,
}

/// One frame of a generation stream: a start, content, and one terminal frame.
#[derive(Debug, Clone)]
pub enum StreamFrame {
    Start { id: String, model: String, role: Role },
    Delta { content: String },
    Done { finish_reason: FinishReason, usage: Usage },
    Error { message: String },
}

/// What a streamed chunk adds to the message.
#[derive(Debug, Clone)]
pub struct DeltaContent {
    pub role: Option<Role>,
    pub content: Option<String>,
}

/// One choice of a streamed chunk.
#[derive(Debug, Clone)]
pub struct StreamChoice {
    pub index: usize,
    pub delta: DeltaContent,
    pub finish_reason: Option<FinishReason>,
}

/// One OpenAI-compatible streamed chunk.
#[derive(Debug, Clone)]
pub struct ChatCompletionChunk {
    pub id: String,
    pub object: String,
    pub created: i64,
    pub model: String,
    pub choices: Vec<StreamChoice>,
}

/// Overall health of the gateway.
#[derive(Debug, Clone, Copy, PartialEq, Eq, Structural)]
pub enum HealthStatus {
    Healthy,
    Degraded,
    Unhealthy,
}

/// The body of a health response.
#[derive(Debug, Clone)]
pub struct HealthResponse {
    pub status: HealthStatus,
    pub model_loaded: bool,
    pub version: String,
    pub uptime_seconds: u64,
}

/// Length of a hyphenated UUID.
pub const UUID_STRING_LEN: usize = 36;

/// Relies on `uuid::Uuid::new_v4` and its hyphenated `Display`: a fresh random
/// id of 36 characters.
#[verifier::external_body]
pub(crate) fn new_uuid_string() -> (r: String)
    ensures
        r@.len() == UUID_STRING_LEN,
{
    uuid::Uuid::new_v4().to_string()
}

/// The parameters of one generation. Temperature, `top_p` and repeat penalty
/// are in billionths.
#[derive(Debug, Clone)]
pub struct GenerationParams {
    pub request_id: String,
    pub temperature: i64,
    pub max_tokens: usize,
    pub top_p: i64,
    pub top_k: i32,
    pub repeat_penalty: i64,
    pub stop_sequences: Vec<String>,
}

pub open spec fn or_default<T>(o: Option<T>, d: T) -> T {
    match o {
        Some(v) => v,
        None => d,
    }
}

impl GenerationParams {
    /// The defaults with each override of `req` put in their place, under a
    /// fresh request id.
    pub fn from_request(req: &ChatCompletionRequest, defaults: GenerationParams) -> (r: Self)
        ensures
            r.request_id@.len() == UUID_STRING_LEN,
            r.temperature == or_default(req.temperature, defaults.temperature),
            r.max_tokens == or_default(req.max_tokens, defaults.max_tokens),
            r.top_p == or_default(req.top_p, defaults.top_p),
            r.top_k == or_default(req.top_k, defaults.top_k),
            r.repeat_penalty == or_default(req.repeat_penalty, defaults.repeat_penalty),
            r.stop_sequences@ == defaults.stop_sequences@,
    {
        GenerationParams {
            request_id: new_uuid_string(),
            temperature: match req.temperature {
                Some(v) => v,
                None => defaults.temperature,
            },
            max_tokens: match req.max_tokens {
                Some(v) => v,
                None => defaults.max_tokens,
            },
            top_p: match req.top_p {
                Some(v) => v,
                None => defaults.top_p,
            },
            top_k: match req.top_k {
                Some(v) => v,
                None => defaults.top_k,
            },
            repeat_penalty: match req.repeat_penalty {
                Some(v) => v,
                None => defaults.repeat_penalty,
            },
            stop_sequences: defaults.stop_sequences,
        }
    }
}

impl Default for GenerationParams {
    /// Temperature 0.6, 256 tokens, `top_p` 0.9, `top_k` 40, repeat penalty
    /// 1.15, and the Llama 3 turn markers as stop sequences.
    fn default() -> (r: Self)
        ensures
            r.request_id@.len() == UUID_STRING_LEN,
            r.temperature == 600_000_000 && r.max_tokens == 256 && r.top_p == 900_000_000
                && r.top_k == 40 && r.repeat_penalty == 1_150_000_000,
            r.stop_sequences@.len() == 3,
            r.stop_sequences@[0]@ == "<|eot_id|>"@,
            r.stop_sequences@[1]@ == "<|end_of_text|>"@,
            r.stop_sequences@[2]@ == "<|start_header_id|>"@,
    {
        let mut stops: Vec<String> = Vec::new();
        stops.push(String::from_str("<|eot_id|>"));
        stops.push(String::from_str("<|end_of_text|>"));
        stops.push(String::from_str("<|start_header_id|>"));
        GenerationParams {
            request_id: new_uuid_string(),
            temperature: 600_000_000,
            max_tokens: 256,
            top_p: 900_000_000,
            top_k: 40,
            repeat_penalty: 1_150_000_000,
            stop_sequences: stops,
        }
    }
}

} // verus!
