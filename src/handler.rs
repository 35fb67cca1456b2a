//! The chat-completion endpoint's decisions: admission in order (rate limit,
//! validation, a loaded model), error bodies, and the assembly of a
//! non-streaming response from the frames of a generation.
use vstd::prelude::*;
use crate::dto::{
    ChatCompletionRequest, ChatCompletionResponse, Choice, FinishReason, Message, Role,
    StreamFrame, Usage,
};
use crate::error::{Error, ErrorResponse};

verus! {

pub const DEFAULT_MODEL_NAME: &'static str = "unknown";

pub const CHAT_COMPLETION_OBJECT: &'static str = "chat.completion";

pub const REQUEST_ID_HEADER: &'static str = "x-request-id";

pub const API_VERSION: &'static str = "0.1.0";

/// A request streams unless it says otherwise.
pub fn is_streaming(req: &ChatCompletionRequest) -> (r: bool)
    ensures
        r == match req.stream {
            Some(b) => b,
            None => true,
        },
{
    match req.stream {
        Some(b) => b,
        None => true,
    }
}

/// The model a request names, or `unknown`.
pub fn model_name(req: &ChatCompletionRequest) -> (r: String)
    ensures
        r@ == match req.model {
            Some(m) => m@,
            None => DEFAULT_MODEL_NAME@,
        },
{
    match &req.model {
        Some(m) => String::from_str(m.as_str()),
        None => String::from_str(DEFAULT_MODEL_NAME),
    }
}

/// A refused request: the error and the HTTP status that reports it.
#[derive(Debug, Clone)]
pub struct Refusal {
    pub error: Error,
    pub status: u16,
}

/// The admission steps in order: a rate-limit refusal is 429, an invalid
/// request 400, and no loaded model 503 `RuntimeNotReady`.
pub fn admission(
    rate_limit: Result<(), Error>,
    validation: Result<(), Error>,
    has_model: bool,
) -> (r: Result<(), Refusal>)
    ensures
        rate_limit is Err ==> (r matches Err(f) && f.status == 429 && f.error == rate_limit->Err_0),
        rate_limit is Ok && validation is Err ==> (r matches Err(f) && f.status == 400 && f.error
            == validation->Err_0),
        rate_limit is Ok && validation is Ok && !has_model ==> (r matches Err(f) && f.status == 503
            && f.error is RuntimeNotReady),
        r is Ok <==> rate_limit is Ok && validation is Ok && has_model,
{
    if let Err(e) = rate_limit {
        return Err(Refusal { error: e, status: 429 });
    }
    if let Err(e) = validation {
        return Err(Refusal { error: e, status: 400 });
    }
    if !has_model {
        return Err(Refusal { error: Error::RuntimeNotReady, status: 503 });
    }
    Ok(())
}

/// The JSON error body for `err`, carrying the request id.
pub fn error_body(err: &Error, request_id: &str) -> (r: ErrorResponse)
    ensures
        r.error.message@ == err.message_spec(),
        r.error.error_type@ == err.type_spec(),
        r.error.code == err.status_spec(),
        r.request_id matches Some(id) && id@ == request_id@,
{
    let mut body = ErrorResponse::from_error(err);
    body.request_id = Some(String::from_str(request_id));
    body
}

/// What a finished generation amounts to without streaming.
#[derive(Debug, Clone)]
pub struct Collected {
    pub content: String,
    pub usage: Usage,
    pub finish_reason: FinishReason,
}

/// Folds frames: content is the `Delta`s in order; `Done` sets usage and
/// finish reason (the last one counts); an `Error` frame ends the fold.
pub open spec fn collect_spec(frames: Seq<StreamFrame>) -> Result<(Seq<char>, Usage, FinishReason), Seq<char>>
    decreases frames.len(),
{
    if frames.len() == 0 {
        Ok((Seq::empty(), Usage { prompt_tokens: 0, completion_tokens: 0, total_tokens: 0 }, FinishReason::Stop))
    } else {
        match collect_spec(frames.drop_last()) {
            Err(m) => Err(m),
            Ok((text, usage, reason)) => match frames.last() {
                StreamFrame::Delta { content } => Ok((text + content@, usage, reason)),
                StreamFrame::Done { finish_reason, usage: u } => Ok((text, u, finish_reason)),
                StreamFrame::Error { message } => Err(message@),
                StreamFrame::Start { .. } => Ok((text, usage, reason)),
            },
        }
    }
}

/// Drains the frames of a non-streaming generation. An `Error` frame becomes
/// a `RuntimeError` with its message.
pub fn collect_frames(frames: &[StreamFrame]) -> (r: Result<Collected, Error>)
    ensures
        match collect_spec(frames@) {
            Ok((text, usage, reason)) => r matches Ok(c) && c.content@ == text && c.usage == usage
                && c.finish_reason == reason,
            Err(m) => r matches Err(e) && (e matches Error::RuntimeError(msg) && msg@ == m),
        },
{
    let mut content = String::new();
    let mut usage = Usage::zero();
    let mut finish_reason = FinishReason::Stop;
    let mut i: usize = 0;
    assert(frames@.subrange(0, 0) =~= Seq::<StreamFrame>::empty());
    while i < frames.len()
        invariant
            i <= frames@.len(),
            collect_spec(frames@.subrange(0, i as int)) == Ok::<(Seq<char>, Usage, FinishReason), Seq<char>>((content@, usage, finish_reason)),
        decreases frames.len() - i,
    {
        assert(frames@.subrange(0, i + 1).drop_last() =~= frames@.subrange(0, i as int));
        match &frames[i] {
            StreamFrame::Delta { content: delta } => {
                content.append(delta.as_str());
            },
            StreamFrame::Done { finish_reason: reason, usage: u } => {
                finish_reason = *reason;
                usage = *u;
            },
            StreamFrame::Error { message } => {
                proof {
                    lemma_collect_err_sticks(frames@, i as int + 1);
                }
                return Err(Error::RuntimeError(String::from_str(message.as_str())));
            },
            StreamFrame::Start { .. } => {},
        }
        i = i + 1;
    }
    assert(frames@.subrange(0, frames@.len() as int) =~= frames@);
    Ok(Collected { content, usage, finish_reason })
}

/// Once the fold of a prefix fails, the fold of the whole fails the same way.
pub proof fn lemma_collect_err_sticks(frames: Seq<StreamFrame>, k: int)
    requires
        0 <= k <= frames.len(),
        collect_spec(frames.subrange(0, k)) is Err,
    ensures
        collect_spec(frames) == collect_spec(frames.subrange(0, k)),
    decreases frames.len() - k,
{
    if k < frames.len() {
        assert(frames.subrange(0, k + 1).drop_last() =~= frames.subrange(0, k));
        lemma_collect_err_sticks(frames, k + 1);
    } else {
        assert(frames.subrange(0, k) =~= frames);
    }
}

/// The `chat.completion` response for a collected generation.
pub fn build_response(
    request_id: &str,
    model_id: &str,
    created: i64,
    collected: Collected,
) -> (r: ChatCompletionResponse)
    ensures
        r.id@ == request_id@,
        r.object@ == CHAT_COMPLETION_OBJECT@,
        r.created == created,
        r.model@ == model_id@,
        r.choices@.len() == 1,
        r.choices@[0].index == 0,
        r.choices@[0].message.role == Role::Assistant,
        r.choices@[0].message.content@ == collected.content@,
        r.choices@[0].finish_reason == Some(collected.finish_reason),
        r.usage == collected.usage,
{
    let mut choices: Vec<Choice> = Vec::new();
    choices.push(
        Choice {
            index: 0,
            message: Message { role: Role::Assistant, content: collected.content },
            finish_reason: Some(collected.finish_reason),
        },
    );
    ChatCompletionResponse {
        id: String::from_str(request_id),
        object: String::from_str(CHAT_COMPLETION_OBJECT),
        created,
        model: String::from_str(model_id),
        choices,
        usage: collected.usage,
    }
}

} // verus!
