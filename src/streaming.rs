//! The SSE producer's decisions: which OpenAI-compatible events each stream
//! frame becomes, when the stream closes, and the once-only cleanup of a
//! request. Sending the events and the timers belong to the caller.
use vstd::prelude::*;
use crate::dto::{
    ChatCompletionChunk, DeltaContent, FinishReason, Role, StreamChoice, StreamFrame,
};
use crate::error::Error;

verus! {

/// Events the bounded channel between producer and response holds.
pub const BUFFER_SIZE: usize = 32;

/// Seconds the producer waits for the next frame before closing the stream.
pub const CHUNK_TIMEOUT_SECS: u64 = 30;

pub const CHUNK_OBJECT_TYPE: &'static str = "chat.completion.chunk";

pub const DONE_MARKER: &'static str = "[DONE]";

/// The error type of an error frame from the engine.
pub const ERROR_TYPE_RUNTIME: &'static str = "runtime_error";

/// The error type of a failure of the stream itself.
pub const ERROR_TYPE_STREAM: &'static str = "stream_error";

/// One SSE event for the client.
#[derive(Debug, Clone)]
pub enum SseEvent {
    /// A `chat.completion.chunk`.
    Chunk(ChatCompletionChunk),
    /// The closing `data: [DONE]`.
    Done,
    /// An in-band error: `{"error": {"message", "type"}}`.
    Error { message: String, error_type: String },
}

/// A chunk with one choice, at index 0.
pub fn create_chunk(
    request_id: &str,
    model_id: &str,
    created: i64,
    role: Option<Role>,
    content: Option<String>,
    finish_reason: Option<FinishReason>,
) -> (r: ChatCompletionChunk)
    ensures
        r.id@ == request_id@,
        r.object@ == CHUNK_OBJECT_TYPE@,
        r.created == created,
        r.model@ == model_id@,
        r.choices@.len() == 1,
        r.choices@[0].index == 0,
        r.choices@[0].delta.role == role,
        r.choices@[0].delta.content == content,
        r.choices@[0].finish_reason == finish_reason,
{
    let mut choices: Vec<StreamChoice> = Vec::new();
    choices.push(StreamChoice { index: 0, delta: DeltaContent { role, content }, finish_reason });
    ChatCompletionChunk {
        id: String::from_str(request_id),
        object: String::from_str(CHUNK_OBJECT_TYPE),
        created,
        model: String::from_str(model_id),
        choices,
    }
}

/// The text of one SSE event: `data: <payload>` and a blank line.
pub fn sse_data(payload: &str) -> (r: String)
    ensures
        r@ == "data: "@ + payload@ + "\n\n"@,
{
    String::from_str("data: ").concat(payload).concat("\n\n")
}

/// What the producer does with one frame.
#[derive(Debug, Clone)]
pub struct FrameOutcome {
    /// The events to send, in order.
    pub events: Vec<SseEvent>,
    /// Whether more frames are to be read.
    pub keep_going: bool,
    /// Whether this frame's time is the first-token latency.
    pub record_first_token: bool,
    /// Whether a content chunk goes out.
    pub record_chunk: bool,
}

/// The per-request state of the SSE producer.
#[derive(Debug, Clone)]
pub struct StreamProducer {
    pub request_id: String,
    pub model_id: String,
    pub created: i64,
    pub first_token_recorded: bool,
    pub closed: bool,
}

/// What the producer does with one frame: from `p0` to `p1`, with outcome `o`.
pub open spec fn frame_step(
    p0: StreamProducer,
    p1: StreamProducer,
    frame: Result<StreamFrame, Error>,
    o: FrameOutcome,
) -> bool {
    &&& (p1.request_id == p0.request_id)
    &&& (p1.model_id == p0.model_id)
    &&& (p1.created == p0.created)
    &&& (p0.closed ==> o.events@.len() == 0 && !o.keep_going && p1.closed
        && !o.record_first_token && !o.record_chunk)
    &&& (p1.closed == !o.keep_going)
    &&& (forall|k: int|
        0 <= k < o.events@.len() ==> (#[trigger] o.events@[k] matches SseEvent::Chunk(c) ==> {
            &&& c.object@ == CHUNK_OBJECT_TYPE@
            &&& c.id@ == p0.request_id@
            &&& c.model@ == p0.model_id@
            &&& c.created == p0.created
            &&& c.choices@.len() == 1
            &&& c.choices@[0].index == 0
        }))
    &&& (!p0.closed ==> match frame {
        Ok(StreamFrame::Start { role, .. }) => {
            &&& o.keep_going
            &&& o.events@.len() == 1
            &&& o.events@[0] matches SseEvent::Chunk(c)
            &&& c.choices@.len() == 1
            &&& c.choices@[0].delta.role == Some(role)
            &&& c.choices@[0].delta.content is None
            &&& c.choices@[0].finish_reason is None
            &&& !o.record_chunk
        },
        Ok(StreamFrame::Delta { content }) => {
            &&& o.keep_going
            &&& o.record_chunk
            &&& o.record_first_token == !p0.first_token_recorded
            &&& p1.first_token_recorded
            &&& o.events@.len() == 1
            &&& o.events@[0] matches SseEvent::Chunk(c)
            &&& c.choices@.len() == 1
            &&& c.choices@[0].delta.role is None
            &&& (c.choices@[0].delta.content matches Some(t) && t@ == content@)
            &&& c.choices@[0].finish_reason is None
        },
        Ok(StreamFrame::Done { finish_reason, .. }) => {
            &&& !o.keep_going
            &&& o.events@.len() == 2
            &&& o.events@[0] matches SseEvent::Chunk(c)
            &&& c.choices@.len() == 1
            &&& c.choices@[0].finish_reason == Some(finish_reason)
            &&& c.choices@[0].delta.role is None
            &&& c.choices@[0].delta.content is None
            &&& o.events@[1] is Done
        },
        Ok(StreamFrame::Error { message }) => {
            &&& !o.keep_going
            &&& o.events@.len() == 1
            &&& (o.events@[0] matches SseEvent::Error { message: m, error_type: t }
                && m@ == message@ && t@ == ERROR_TYPE_RUNTIME@)
        },
        Err(e) => {
            &&& !o.keep_going
            &&& o.events@.len() == 1
            &&& (o.events@[0] matches SseEvent::Error { message: m, error_type: t }
                && m@ == e.message_spec() && t@ == ERROR_TYPE_STREAM@)
        },
    })
}

impl StreamProducer {
    pub fn new(request_id: String, model_id: String, created: i64) -> (r: StreamProducer)
        ensures
            r.request_id@ == request_id@,
            r.model_id@ == model_id@,
            r.created == created,
            !r.first_token_recorded,
            !r.closed,
    {
        StreamProducer { request_id, model_id, created, first_token_recorded: false, closed: false }
    }

    /// The events for one frame. `Start` gives a role chunk, `Delta` a content
    /// chunk (the first one marks the first-token latency), `Done` a chunk
    /// with the finish reason and then `[DONE]`, and an error an error event;
    /// the last two close the stream. A closed producer sends nothing more.
    pub fn process_frame(&mut self, frame: Result<StreamFrame, Error>) -> (r: FrameOutcome)
        ensures
            frame_step(*old(self), *final(self), frame, r),
    {
        let mut events: Vec<SseEvent> = Vec::new();
        if self.closed {
            return FrameOutcome {
                events,
                keep_going: false,
                record_first_token: false,
                record_chunk: false,
            };
        }
        match frame {
            Ok(StreamFrame::Start { role, .. }) => {
                events.push(
                    SseEvent::Chunk(
                        create_chunk(
                            self.request_id.as_str(),
                            self.model_id.as_str(),
                            self.created,
                            Some(role),
                            None,
                            None,
                        ),
                    ),
                );
                FrameOutcome { events, keep_going: true, record_first_token: false, record_chunk: false }
            },
            Ok(StreamFrame::Delta { content }) => {
                let first = !self.first_token_recorded;
                self.first_token_recorded = true;
                events.push(
                    SseEvent::Chunk(
                        create_chunk(
                            self.request_id.as_str(),
                            self.model_id.as_str(),
                            self.created,
                            None,
                            Some(content),
                            None,
                        ),
                    ),
                );
                FrameOutcome { events, keep_going: true, record_first_token: first, record_chunk: true }
            },
            Ok(StreamFrame::Done { finish_reason, .. }) => {
                events.push(
                    SseEvent::Chunk(
                        create_chunk(
                            self.request_id.as_str(),
                            self.model_id.as_str(),
                            self.created,
                            None,
                            None,
                            Some(finish_reason),
                        ),
                    ),
                );
                events.push(SseEvent::Done);
                self.closed = true;
                FrameOutcome { events, keep_going: false, record_first_token: false, record_chunk: false }
            },
            Ok(StreamFrame::Error { message }) => {
                events.push(SseEvent::Error { message, error_type: String::from_str(ERROR_TYPE_RUNTIME) });
                self.closed = true;
                FrameOutcome { events, keep_going: false, record_first_token: false, record_chunk: false }
            },
            Err(e) => {
                events.push(SseEvent::Error { message: e.to_string(), error_type: String::from_str(ERROR_TYPE_STREAM) });
                self.closed = true;
                FrameOutcome { events, keep_going: false, record_first_token: false, record_chunk: false }
            },
        }
    }

    /// No frame came within the deadline: the stream closes without more events.
    pub fn on_timeout(&mut self)
        ensures
            final(self).closed,
            final(self).first_token_recorded == old(self).first_token_recorded,
    {
        self.closed = true;
    }
}


/// `ps[i]` takes in `frames[i]` and becomes `ps[i + 1]`, with outcome `outs[i]`.
pub open spec fn frames_run(
    ps: Seq<StreamProducer>,
    frames: Seq<Result<StreamFrame, Error>>,
    outs: Seq<FrameOutcome>,
) -> bool {
    &&& ps.len() == frames.len() + 1
    &&& outs.len() == frames.len()
    &&& forall|i: int|
        0 <= i < frames.len() ==> #[trigger] frame_step(ps[i], ps[i + 1], frames[i], outs[i])
}

/// A frame that keeps a stream open: `Start` or `Delta`.
pub open spec fn is_open_frame(f: Result<StreamFrame, Error>) -> bool {
    f matches Ok(StreamFrame::Start { .. }) || f matches Ok(StreamFrame::Delta { .. })
}

/// A producer that started open stays open through `Start` and `Delta` frames.
pub proof fn lemma_open_through(
    ps: Seq<StreamProducer>,
    frames: Seq<Result<StreamFrame, Error>>,
    outs: Seq<FrameOutcome>,
    i: int,
)
    requires
        frames_run(ps, frames, outs),
        !ps[0].closed,
        0 <= i <= frames.len(),
        forall|j: int| 0 <= j < i ==> is_open_frame(#[trigger] frames[j]),
    ensures
        !ps[i].closed,
    decreases i,
{
    if i > 0 {
        lemma_open_through(ps, frames, outs, i - 1);
        let k = i - 1;
        assert(is_open_frame(frames[k]));
        assert(frame_step(ps[k], ps[k + 1], frames[k], outs[k]));
        assert(k + 1 == i);
    }
}

/// Once the producer has closed, every later frame sends nothing.
pub proof fn lemma_producer_stays_closed(
    ps: Seq<StreamProducer>,
    frames: Seq<Result<StreamFrame, Error>>,
    outs: Seq<FrameOutcome>,
    i: int,
)
    requires
        frames_run(ps, frames, outs),
        0 <= i <= frames.len(),
        ps[i].closed,
    ensures
        forall|j: int| i <= j < frames.len() ==> (#[trigger] outs[j]).events@.len() == 0,
    decreases frames.len() - i,
{
    if i < frames.len() {
        assert(frame_step(ps[i], ps[i + 1], frames[i], outs[i]));
        lemma_producer_stays_closed(ps, frames, outs, i + 1);
    }
}

/// A stream of `Start`, then `Delta`s, then `Done` gives one role chunk, one
/// content chunk per `Delta` with its text, a chunk with the finish reason and
/// no delta, then `[DONE]`; the producer then closes and sends nothing more.
pub proof fn lemma_happy_stream(
    ps: Seq<StreamProducer>,
    frames: Seq<Result<StreamFrame, Error>>,
    outs: Seq<FrameOutcome>,
    n: int,
)
    requires
        frames_run(ps, frames, outs),
        !ps[0].closed,
        0 <= n < frames.len(),
        frames[0] matches Ok(StreamFrame::Start { .. }),
        forall|j: int| 1 <= j < n ==> (#[trigger] frames[j]) matches Ok(StreamFrame::Delta { .. }),
        frames[n] matches Ok(StreamFrame::Done { .. }),
        n >= 1,
    ensures
        outs[0].events@.len() == 1 && (outs[0].events@[0] matches SseEvent::Chunk(c) && c.object@
            == CHUNK_OBJECT_TYPE@ && c.choices@[0].delta.content is None
            && c.choices@[0].delta.role is Some),
        forall|j: int|
            1 <= j < n ==> (#[trigger] outs[j]).keep_going && outs[j].events@.len() == 1 && (
            outs[j].events@[0] matches SseEvent::Chunk(c) && frames[j] matches Ok(
                StreamFrame::Delta { content },
            ) && c.choices@[0].delta.content matches Some(t) && t@ == content@),
        outs[n].events@.len() == 2,
        outs[n].events@[0] matches SseEvent::Chunk(c) && frames[n] matches Ok(
            StreamFrame::Done { finish_reason, .. },
        ) && c.choices@[0].finish_reason == Some(finish_reason) && c.choices@[0].delta.role is None
            && c.choices@[0].delta.content is None,
        outs[n].events@[1] is Done,
        !outs[n].keep_going,
        forall|j: int| n < j < frames.len() ==> (#[trigger] outs[j]).events@.len() == 0,
{
    assert forall|j: int| 0 <= j < n implies is_open_frame(#[trigger] frames[j]) by {
        if j >= 1 {
            assert(frames[j] matches Ok(StreamFrame::Delta { .. }));
        }
    }
    let first: int = 0;
    assert(frame_step(ps[first], ps[first + 1], frames[first], outs[first]));
    assert forall|j: int|
        1 <= j < n implies (#[trigger] outs[j]).keep_going && outs[j].events@.len() == 1 && (
        outs[j].events@[0] matches SseEvent::Chunk(c) && frames[j] matches Ok(
            StreamFrame::Delta { content },
        ) && c.choices@[0].delta.content matches Some(t) && t@ == content@) by {
        lemma_open_through(ps, frames, outs, j);
        assert(frame_step(ps[j], ps[j + 1], frames[j], outs[j]));
        assert(frames[j] matches Ok(StreamFrame::Delta { .. }));
    }
    lemma_open_through(ps, frames, outs, n);
    assert(frame_step(ps[n], ps[n + 1], frames[n], outs[n]));
    lemma_producer_stays_closed(ps, frames, outs, n + 1);
}

/// A stream that ends with an `Error` frame gives, for that frame, exactly one
/// `runtime_error` event with its message, no finish chunk and no `[DONE]`;
/// the producer then closes and sends nothing more.
pub proof fn lemma_error_stream(
    ps: Seq<StreamProducer>,
    frames: Seq<Result<StreamFrame, Error>>,
    outs: Seq<FrameOutcome>,
    n: int,
)
    requires
        frames_run(ps, frames, outs),
        !ps[0].closed,
        0 <= n < frames.len(),
        forall|j: int| 0 <= j < n ==> is_open_frame(#[trigger] frames[j]),
        frames[n] matches Ok(StreamFrame::Error { .. }),
    ensures
        outs[n].events@.len() == 1,
        outs[n].events@[0] matches SseEvent::Error { message: m, error_type: t } && frames[n] matches Ok(
            StreamFrame::Error { message },
        ) && m@ == message@ && t@ == ERROR_TYPE_RUNTIME@,
        !outs[n].keep_going,
        forall|j: int| n < j < frames.len() ==> (#[trigger] outs[j]).events@.len() == 0,
{
    lemma_open_through(ps, frames, outs, n);
    assert(frame_step(ps[n], ps[n + 1], frames[n], outs[n]));
    lemma_producer_stays_closed(ps, frames, outs, n + 1);
}

/// Runs a request's cleanup exactly once, whichever exit path comes first.
#[derive(Debug, Clone, Copy)]
pub struct CleanupGuard {
    pub released: bool,
}

impl CleanupGuard {
    pub fn new() -> (r: CleanupGuard)
        ensures
            !r.released,
    {
        CleanupGuard { released: false }
    }

    /// Whether the caller is to release the rate-limit slot and complete the
    /// metrics now: true on the first call only.
    pub fn release(&mut self) -> (r: bool)
        ensures
            r == !old(self).released,
            final(self).released,
    {
        let first = !self.released;
        self.released = true;
        first
    }
}

} // verus!
