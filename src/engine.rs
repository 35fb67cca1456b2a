//! The engine adapter's decisions: framing the engine's SSE body, turning its
//! content pieces into stream frames, and judging a model load.
use vstd::prelude::*;
use vstd::string::StringSliceAdditionalSpecFns;
use crate::dto::{FinishReason, GenerationParams, Message, Role, StreamFrame, Usage};
use crate::error::Error;
use crate::template::{
    first_stop, has_dialogue, prompt_of, stop_scan, str_views, strip_markers, CleanedResponse,
    TemplateConfig, TemplateEngine, ROLE_POLLUTION_FALLBACK,
};
use crate::text::{
    append_seq, chars_of, contains, contains_seq, replace_seq, slice_of, string_of, trim, trim_seq,
};

verus! {

/// Divisor of the byte length of a text that estimates its tokens.
pub const TOKEN_ESTIMATION_DIVISOR: usize = 4;

/// The start of the refusal line, by which an already refused text is known.
pub const REFUSAL_PREFIX: &'static str = "I understand you'd like me to respond";

/// The message of the error frame that ends a cancelled stream.
pub const CANCELLED_MESSAGE: &'static str = "Request cancelled";

/// The engine binary that the supervisor starts.
pub const ENGINE_BINARY: &'static str = "./llama.cpp/build/bin/llama-server";

/// Health probes before a load gives up.
pub const SERVER_READY_MAX_ATTEMPTS: u32 = 60;

// ---------------------------------------------------------------------------
// SSE framing of the engine's body
// ---------------------------------------------------------------------------

/// A blank line, `\n\n`, starts at index `i` of `b`.
pub open spec fn blank_at(b: Seq<u8>, i: int) -> bool {
    0 <= i && i + 1 < b.len() && b[i] == 10u8 && b[i + 1] == 10u8
}

pub open spec fn has_blank(b: Seq<u8>) -> bool {
    exists|i: int| blank_at(b, i)
}

/// An event: bytes that end at their first blank line.
pub open spec fn is_event(e: Seq<u8>) -> bool {
    e.len() >= 2 && blank_at(e, e.len() - 2) && forall|i: int| 0 <= i < e.len() - 2 ==> !blank_at(e, i)
}

pub open spec fn concat_all(es: Seq<Vec<u8>>) -> Seq<u8>
    decreases es.len(),
{
    if es.len() == 0 {
        Seq::empty()
    } else {
        concat_all(es.drop_last()) + es.last()@
    }
}

/// Bytes of the engine's body that do not yet end in a blank line.
#[derive(Debug)]
pub struct SseDecoder {
    pub buffer: Vec<u8>,
}

impl SseDecoder {
    pub open spec fn wf(&self) -> bool {
        !has_blank(self.buffer@)
    }

    pub fn new() -> (r: SseDecoder)
        ensures
            r.wf(),
            r.buffer@.len() == 0,
    {
        SseDecoder { buffer: Vec::new() }
    }

    /// The index of the first blank line in `b`.
    fn find_blank(b: &Vec<u8>) -> (r: Option<usize>)
        ensures
            match r {
                Some(i) => blank_at(b@, i as int) && forall|j: int| 0 <= j < i ==> !blank_at(b@, j),
                None => !has_blank(b@),
            },
    {
        let mut i: usize = 0;
        while b.len() >= 2 && i < b.len() - 1
            invariant
                i <= b@.len(),
                forall|j: int| 0 <= j < i ==> !blank_at(b@, j),
            decreases b.len() - i,
        {
            if b[i] == 10u8 && b[i + 1] == 10u8 {
                return Some(i);
            }
            i = i + 1;
        }
        assert forall|j: int| !blank_at(b@, j) by {
            if 0 <= j && j + 1 < b@.len() {
                assert(j < i);
            }
        }
        None
    }

    /// Takes in more body bytes and hands back every event now complete, in
    /// order; what follows the last blank line stays buffered.
    pub fn push(&mut self, bytes: &[u8]) -> (r: Vec<Vec<u8>>)
        requires
            old(self).wf(),
        ensures
            final(self).wf(),
            concat_all(r@) + final(self).buffer@ == old(self).buffer@ + bytes@,
            forall|k: int| 0 <= k < r@.len() ==> is_event(#[trigger] r@[k]@),
    {
        let mut i: usize = 0;
        while i < bytes.len()
            invariant
                i <= bytes@.len(),
                self.buffer@ == old(self).buffer@ + bytes@.subrange(0, i as int),
            decreases bytes.len() - i,
        {
            self.buffer.push(bytes[i]);
            i = i + 1;
            assert(self.buffer@ =~= old(self).buffer@ + bytes@.subrange(0, i as int));
        }
        assert(bytes@.subrange(0, bytes@.len() as int) =~= bytes@);
        let ghost total = self.buffer@;
        let mut events: Vec<Vec<u8>> = Vec::new();
        loop
            invariant
                concat_all(events@) + self.buffer@ == total,
                forall|k: int| 0 <= k < events@.len() ==> is_event(#[trigger] events@[k]@),
            ensures
                concat_all(events@) + self.buffer@ == total,
                forall|k: int| 0 <= k < events@.len() ==> is_event(#[trigger] events@[k]@),
                !has_blank(self.buffer@),
            decreases self.buffer@.len(),
        {
            match Self::find_blank(&self.buffer) {
                None => break,
                Some(pos) => {
                    let n = self.buffer.len();
                    assert(pos + 1 < n);
                    let end = pos + 2;
                    let mut event: Vec<u8> = Vec::new();
                    let mut rest: Vec<u8> = Vec::new();
                    let mut j: usize = 0;
                    while j < self.buffer.len()
                        invariant
                            end <= self.buffer@.len(),
                            j <= self.buffer@.len(),
                            event@ == self.buffer@.subrange(0, if j < end {
                                j as int
                            } else {
                                end as int
                            }),
                            rest@ == if j <= end {
                                Seq::<u8>::empty()
                            } else {
                                self.buffer@.subrange(end as int, j as int)
                            },
                        decreases self.buffer.len() - j,
                    {
                        if j < end {
                            event.push(self.buffer[j]);
                        } else {
                            rest.push(self.buffer[j]);
                        }
                        j = j + 1;
                        assert(event@ =~= self.buffer@.subrange(0, if j < end {
                            j as int
                        } else {
                            end as int
                        }));
                        assert(rest@ =~= if j <= end {
                            Seq::<u8>::empty()
                        } else {
                            self.buffer@.subrange(end as int, j as int)
                        });
                    }
                    let ghost buf = self.buffer@;
                    assert(rest@ =~= buf.subrange(end as int, buf.len() as int));
                    assert(event@ + rest@ =~= buf);
                    assert(is_event(event@)) by {
                        assert forall|k: int| 0 <= k < event@.len() - 2 implies !blank_at(event@, k) by {
                            assert(!blank_at(buf, k));
                        }
                    }
                    let ghost prev = events@;
                    events.push(event);
                    assert(events@.drop_last() =~= prev);
                    assert(concat_all(events@) + rest@ =~= concat_all(prev) + buf);
                    self.buffer = rest;
                },
            }
        }
        events
    }
}

/// What the bytes of an event read as, invalid UTF-8 replaced.
pub uninterp spec fn lossy_text_of(b: Seq<u8>) -> Seq<char>;

/// Relies on `String::from_utf8_lossy`: text that depends on the bytes alone.
#[verifier::external_body]
pub(crate) fn lossy_text(b: &Vec<u8>) -> (r: String)
    ensures
        r@ == lossy_text_of(b@),
{
    String::from_utf8_lossy(b.as_slice()).into_owned()
}

/// The `data:` payloads of an event's lines, in order.
pub open spec fn payloads(ls: Seq<Seq<char>>) -> Seq<Seq<char>>
    decreases ls.len(),
{
    if ls.len() == 0 {
        Seq::empty()
    } else {
        let prev = payloads(ls.drop_last());
        if crate::text::starts_with(ls.last(), "data: "@) {
            prev.push(ls.last().subrange(6, ls.last().len() as int))
        } else {
            prev
        }
    }
}

/// The `data:` payloads of an event, as text.
pub fn event_payloads(event: &Vec<u8>) -> (r: Vec<String>)
    ensures
        r@.map_values(|s: String| s@) == payloads(crate::text::lines(lossy_text_of(event@))),
{
    let text = lossy_text(event);
    let chars = chars_of(text.as_str());
    let ls = crate::text::lines_of(&chars);
    let ghost lv = crate::text::views(ls@);
    let prefix = chars_of("data: ");
    proof {
        reveal_strlit("data: ");
    }
    let mut out: Vec<String> = Vec::new();
    let mut i: usize = 0;
    assert(lv.subrange(0, 0) =~= Seq::<Seq<char>>::empty());
    assert(out@.map_values(|s: String| s@) =~= Seq::<Seq<char>>::empty());
    while i < ls.len()
        invariant
            i <= ls@.len(),
            lv == crate::text::views(ls@),
            lv == crate::text::lines(chars@),
            chars@ == lossy_text_of(event@),
            prefix@ == "data: "@,
            prefix@.len() == 6,
            out@.map_values(|s: String| s@) == payloads(lv.subrange(0, i as int)),
        decreases ls.len() - i,
    {
        assert(lv.subrange(0, i + 1).drop_last() =~= lv.subrange(0, i as int));
        assert(lv.subrange(0, i + 1).last() == ls@[i as int]@);
        let line = &ls[i];
        if crate::text::starts_with_seq(line, &prefix) {
            let payload = slice_of(line, 6, line.len());
            let ghost prev = out@.map_values(|s: String| s@);
            out.push(string_of(&payload));
            assert(out@.map_values(|s: String| s@) =~= prev.push(payload@));
        }
        i = i + 1;
    }
    assert(lv.subrange(0, ls@.len() as int) =~= lv);
    out
}

// ---------------------------------------------------------------------------
// Engine chunks
// ---------------------------------------------------------------------------

/// One parsed engine frame: a content piece and whether the engine stopped.
#[derive(Debug, Clone)]
pub struct EngineChunk {
    pub content: String,
    pub stop: bool,
}

/// What a `data:` payload parses to as `{"content": string, "stop": bool}`.
pub uninterp spec fn engine_chunk_of(payload: Seq<char>) -> Option<(Seq<char>, bool)>;

/// Relies on `serde_json::from_str` into a `serde_json::Value`, then its
/// `content` string and `stop` bool: `None` for malformed JSON or fields.
#[verifier::external_body]
pub(crate) fn parse_engine_chunk(payload: &str) -> (r: Option<EngineChunk>)
    ensures
        match r {
            Some(c) => engine_chunk_of(payload@) == Some((c.content@, c.stop)),
            None => engine_chunk_of(payload@) is None,
        },
{
    let v: serde_json::Value = serde_json::from_str(payload).ok()?;
    let content = v.get("content")?.as_str()?.to_string();
    let stop = v.get("stop")?.as_bool()?;
    Some(EngineChunk { content, stop })
}

// ---------------------------------------------------------------------------
// The generation stream
// ---------------------------------------------------------------------------

pub open spec fn is_terminal(f: StreamFrame) -> bool {
    f is Done || f is Error
}

/// A stream so far: one `Start`, then `Delta`s, and at most one terminal
/// frame, which is last.
pub open spec fn stream_prefix_ok(h: Seq<StreamFrame>) -> bool {
    &&& h.len() >= 1
    &&& h[0] is Start
    &&& forall|i: int| 1 <= i < h.len() ==> (#[trigger] h[i] is Delta || (i == h.len() - 1 && is_terminal(h[i])))
}

/// A whole stream: `Start Delta* (Done | Error)`.
pub open spec fn stream_complete(h: Seq<StreamFrame>) -> bool {
    stream_prefix_ok(h) && h.len() >= 2 && is_terminal(h.last())
}

/// Frames handed out at once: `Delta`s, perhaps closed by a terminal frame.
pub open spec fn batch_ok(out: Seq<StreamFrame>) -> bool {
    forall|i: int| 0 <= i < out.len() ==> (#[trigger] out[i] is Delta || (i == out.len() - 1 && is_terminal(out[i])))
}

pub proof fn lemma_extend_stream(h: Seq<StreamFrame>, out: Seq<StreamFrame>)
    requires
        stream_prefix_ok(h),
        !is_terminal(h.last()),
        batch_ok(out),
    ensures
        stream_prefix_ok(h + out),
        (h + out).last() == (if out.len() > 0 {
            out.last()
        } else {
            h.last()
        }),
{
    let t = h + out;
    assert forall|i: int| 1 <= i < t.len() implies (#[trigger] t[i] is Delta || (i == t.len() - 1
        && is_terminal(t[i]))) by {
        if i < h.len() {
            assert(t[i] == h[i]);
            if i == h.len() - 1 {
                assert(!is_terminal(h[i]));
            }
        } else {
            assert(t[i] == out[i - h.len()]);
        }
    }
}

/// Turns the engine's content pieces for one request into stream frames.
/// The frames handed out so far, `history`, always read
/// `Start Delta* (Done | Error)?`, and `finished` tells whether the terminal
/// frame has gone out.
pub struct Generation {
    pub template: TemplateConfig,
    pub stop_sequences: Vec<String>,
    pub eos_token: String,
    /// The raw text of every piece so far.
    pub accumulated: Vec<char>,
    /// Non-empty pieces received.
    pub token_count: usize,
    pub prompt_tokens: usize,
    pub finished: bool,
    pub history: Ghost<Seq<StreamFrame>>,
}

/// The pieces' text without the four streaming markers.
pub open spec fn stream_clean(s: Seq<char>) -> Seq<char> {
    strip_markers(s)
}

/// What of `acc`, after its first `old_len` characters, comes before a cut at `cut_len`.
pub open spec fn before_cut(acc: Seq<char>, old_len: int, cut_len: int) -> Seq<char> {
    if cut_len > old_len {
        acc.subrange(old_len, cut_len)
    } else {
        Seq::empty()
    }
}

pub open spec fn delta_text(f: StreamFrame) -> Seq<char> {
    match f {
        StreamFrame::Delta { content } => content@,
        _ => Seq::empty(),
    }
}

/// What taking in one engine piece, `content` with the engine's `stop`
/// flag, does: from generation `g0` to `g1`, handing out frames `r`.
pub open spec fn chunk_step(
    g0: Generation,
    g1: Generation,
    content: Seq<char>,
    stop: bool,
    r: Seq<StreamFrame>,
) -> bool {
    let acc = g0.accumulated@ + content;
    let stops = g0.stops();
    &&& g1.history@ == g0.history@ + r
    &&& g0.finished ==> r.len() == 0 && g1.finished
    &&& g1.stop_sequences == g0.stop_sequences
    &&& g1.eos_token == g0.eos_token
    &&& g1.template == g0.template
    &&& g1.prompt_tokens == g0.prompt_tokens
    &&& !g0.finished ==> g1.accumulated@ == acc
    &&& g1.token_count == (if !g0.finished && content.len() > 0 && g0.token_count < usize::MAX {
        g0.token_count + 1
    } else {
        g0.token_count as int
    })
    &&& !g0.finished && g1.finished ==> r.len() >= 1 && r.last() == (StreamFrame::Done {
        finish_reason: FinishReason::Stop,
        usage: g1.usage_spec(),
    })
    &&& !g0.finished && content.len() > 0 && has_dialogue(acc) && !contains(acc, REFUSAL_PREFIX@)
        ==> {
        &&& r.len() == 2
        &&& r[0] is Delta
        &&& delta_text(r[0]) == ROLE_POLLUTION_FALLBACK@
        &&& g1.finished
    }
    &&& !g0.finished && content.len() > 0 && has_dialogue(acc) && contains(acc, REFUSAL_PREFIX@)
        && !stop ==> r.len() == 0 && !g1.finished
    &&& !g0.finished && content.len() > 0 && !has_dialogue(acc) && first_stop(acc, stops, g0.eos_token@)
        is None ==> {
        &&& (trim(stream_clean(content)).len() > 0 <==> (r.len() >= 1 && r[0] is Delta
            && delta_text(r[0]) == stream_clean(content)))
        &&& !stop ==> !g1.finished && r.len() <= 1
        &&& forall|i: int|
            0 <= i < r.len() - 1 ==> #[trigger] r[i] is Delta && (delta_text(r[i]) == stream_clean(
                content,
            ) || delta_text(r[i]) == "\n"@)
    }
    &&& ({
        let cut = stop_scan(acc, stops, g0.eos_token@).0;
        let text = stream_clean(before_cut(acc, g0.accumulated@.len() as int, cut.len() as int));
        !g0.finished && content.len() > 0 && !has_dialogue(acc) && first_stop(acc, stops, g0.eos_token@)
            is Some ==> {
            &&& g1.finished
            &&& r.len() == (if trim(text).len() > 0 {
                2int
            } else {
                1int
            })
            &&& r.len() == 2 ==> r[0] is Delta && delta_text(r[0]) == text
        }
    })
    &&& !g0.finished && stop ==> g1.finished
}

impl Generation {
    pub open spec fn wf(&self) -> bool {
        &&& stream_prefix_ok(self.history@)
        &&& self.finished <==> is_terminal(self.history@.last())
    }

    pub open spec fn stops(&self) -> Seq<Seq<char>> {
        str_views(self.stop_sequences@)
    }

    /// A generation for the prompt `prompt`, and the `Start` frame that opens its stream.
    pub fn begin(
        request_id: String,
        model_id: String,
        template: TemplateConfig,
        stop_sequences: Vec<String>,
        eos_token: String,
        prompt: &str,
    ) -> (r: (Generation, StreamFrame))
        ensures
            r.0.wf(),
            !r.0.finished,
            r.0.history@ == seq![r.1],
            r.0.accumulated@.len() == 0,
            r.0.token_count == 0,
            r.0.prompt_tokens == (prompt.spec_bytes().len() as usize) / TOKEN_ESTIMATION_DIVISOR,
            r.0.stop_sequences@ == stop_sequences@,
            r.0.eos_token@ == eos_token@,
            r.1 matches StreamFrame::Start { id, model, role } && id@ == request_id@ && model@
                == model_id@ && role == Role::Assistant,
    {
        let start = StreamFrame::Start { id: request_id, model: model_id, role: Role::Assistant };
        let ghost h = seq![start];
        let g = Generation {
            template,
            stop_sequences,
            eos_token,
            accumulated: Vec::new(),
            token_count: 0,
            prompt_tokens: prompt.len() / TOKEN_ESTIMATION_DIVISOR,
            finished: false,
            history: Ghost(h),
        };
        (g, start)
    }

    /// The usage this generation reports: the estimated prompt tokens, the
    /// pieces received, and their sum (saturating).
    pub open spec fn usage_spec(&self) -> Usage {
        Usage {
            prompt_tokens: self.prompt_tokens,
            completion_tokens: self.token_count,
            total_tokens: if self.prompt_tokens + self.token_count <= usize::MAX {
                (self.prompt_tokens + self.token_count) as usize
            } else {
                usize::MAX
            },
        }
    }

    fn done_frame(&self) -> (r: StreamFrame)
        ensures
            r == (StreamFrame::Done { finish_reason: FinishReason::Stop, usage: self.usage_spec() }),
    {
        let total = if self.token_count <= usize::MAX - self.prompt_tokens {
            self.prompt_tokens + self.token_count
        } else {
            usize::MAX
        };
        StreamFrame::Done {
            finish_reason: FinishReason::Stop,
            usage: Usage {
                prompt_tokens: self.prompt_tokens,
                completion_tokens: self.token_count,
                total_tokens: total,
            },
        }
    }

    /// Records `out` as handed out and hands it back.
    fn emit(&mut self, out: Vec<StreamFrame>) -> (r: Vec<StreamFrame>)
        requires
            old(self).wf(),
            !old(self).finished,
            batch_ok(out@),
        ensures
            r@ == out@,
            final(self).history@ == old(self).history@ + out@,
            final(self).finished == (out@.len() > 0 && is_terminal(out@.last())),
            final(self).wf(),
            final(self).template == old(self).template,
            final(self).stop_sequences == old(self).stop_sequences,
            final(self).eos_token == old(self).eos_token,
            final(self).accumulated == old(self).accumulated,
            final(self).token_count == old(self).token_count,
            final(self).prompt_tokens == old(self).prompt_tokens,
    {
        proof {
            lemma_extend_stream(self.history@, out@);
        }
        let ghost h = self.history@ + out@;
        self.history = Ghost(h);
        let n = out.len();
        if n > 0 {
            self.finished = match &out[n - 1] {
                StreamFrame::Done { .. } => true,
                StreamFrame::Error { .. } => true,
                _ => false,
            };
        }
        out
    }

    /// Takes in one engine piece. A piece that completes a two-party transcript
    /// ends the stream with the refusal line (a transcript that already holds
    /// the refusal line sends nothing); a stop sequence ends it with the text
    /// before it; otherwise the piece, without markers, goes out when it holds
    /// more than whitespace. The engine's stop flag ends the stream. Once
    /// finished, nothing more goes out.
    pub fn on_chunk(&mut self, chunk: &EngineChunk) -> (r: Vec<StreamFrame>)
        requires
            old(self).wf(),
        ensures
            final(self).wf(),
            chunk_step(*old(self), *final(self), chunk.content@, chunk.stop, r@),
    {
        if self.finished {
            return Vec::new();
        }
        let mut out: Vec<StreamFrame> = Vec::new();
        let piece = chars_of(chunk.content.as_str());
        let start_len = self.accumulated.len();
        append_seq(&mut self.accumulated, &piece);
        if piece.len() > 0 {
            if self.token_count < usize::MAX {
                self.token_count = self.token_count + 1;
            }
            let ai = chars_of("AI:");
            let you = chars_of("You:");
            if contains_seq(&self.accumulated, &ai) && contains_seq(&self.accumulated, &you) {
                let refused = chars_of(REFUSAL_PREFIX);
                if !contains_seq(&self.accumulated, &refused) {
                    out.push(StreamFrame::Delta { content: String::from_str(ROLE_POLLUTION_FALLBACK) });
                    out.push(self.done_frame());
                    return self.emit(out);
                }
            } else {
                let (cut, stopped) = TemplateEngine::truncate_at_stop_sequence(
                    &self.accumulated,
                    self.stop_sequences.as_slice(),
                    self.eos_token.as_str(),
                );
                if stopped.is_some() {
                    proof {
                        crate::template::lemma_earliest_stop_bounds(
                            self.accumulated@,
                            crate::template::stop_candidates(self.stops(), self.eos_token@),
                        );
                    }
                    let cut_len = cut.len();
                    let acc_len = self.accumulated.len();
                    let before_stop = if cut_len > start_len && cut_len <= acc_len {
                        slice_of(&self.accumulated, start_len, cut_len)
                    } else {
                        Vec::new()
                    };
                    let cleaned = TemplateEngine::remove_template_markers(&before_stop);
                    if trim_seq(&cleaned).len() > 0 {
                        out.push(StreamFrame::Delta { content: string_of(&cleaned) });
                    }
                    out.push(self.done_frame());
                    return self.emit(out);
                }
                let cleaned = TemplateEngine::remove_template_markers(&piece);
                if trim_seq(&cleaned).len() > 0 {
                    out.push(StreamFrame::Delta { content: string_of(&cleaned) });
                }
            }
        }
        if chunk.stop {
            let text = string_of(&self.accumulated);
            let final_clean: CleanedResponse = TemplateEngine::clean_response(
                text.as_str(),
                &self.template,
                self.stop_sequences.as_slice(),
                self.eos_token.as_str(),
            );
            if final_clean.stopped_at.is_some() {
                out.push(StreamFrame::Delta { content: String::from_str("\n") });
            }
            out.push(self.done_frame());
        }
        self.emit(out)
    }

    /// Takes in one `data:` payload of the engine: `None`, and no change,
    /// when it is not a well-formed content frame; otherwise what `on_chunk`
    /// hands out for it.
    pub fn on_payload(&mut self, payload: &str) -> (r: Option<Vec<StreamFrame>>)
        requires
            old(self).wf(),
        ensures
            final(self).wf(),
            r is None <==> engine_chunk_of(payload@) is None,
            r is None ==> *final(self) == *old(self),
            r matches Some(out) ==> (engine_chunk_of(payload@) matches Some((content, stop))
                && chunk_step(*old(self), *final(self), content, stop, out@)),
    {
        match parse_engine_chunk(payload) {
            Some(chunk) => Some(self.on_chunk(&chunk)),
            None => None,
        }
    }

    /// The engine's body ended: the stream closes with `Done`.
    pub fn on_end(&mut self) -> (r: Vec<StreamFrame>)
        requires
            old(self).wf(),
        ensures
            final(self).wf(),
            final(self).finished,
            final(self).history@ == old(self).history@ + r@,
            old(self).finished ==> r@.len() == 0,
            !old(self).finished ==> r@ == seq![
                StreamFrame::Done { finish_reason: FinishReason::Stop, usage: old(self).usage_spec() },
            ],
    {
        if self.finished {
            return Vec::new();
        }
        let mut out: Vec<StreamFrame> = Vec::new();
        out.push(self.done_frame());
        self.emit(out)
    }

    /// The engine failed or the request was cancelled: the stream closes with
    /// an `Error` frame carrying `message`.
    pub fn on_failure(&mut self, message: String) -> (r: Vec<StreamFrame>)
        requires
            old(self).wf(),
        ensures
            final(self).wf(),
            final(self).finished,
            final(self).history@ == old(self).history@ + r@,
            old(self).finished ==> r@.len() == 0,
            !old(self).finished ==> (r@.len() == 1 && (r@[0] matches StreamFrame::Error { message: m }
                && m@ == message@)),
    {
        if self.finished {
            return Vec::new();
        }
        let mut out: Vec<StreamFrame> = Vec::new();
        out.push(StreamFrame::Error { message });
        self.emit(out)
    }

    /// The request was cancelled: the stream closes with `Error("Request cancelled")`.
    pub fn on_cancel(&mut self) -> (r: Vec<StreamFrame>)
        requires
            old(self).wf(),
        ensures
            final(self).wf(),
            final(self).finished,
            final(self).history@ == old(self).history@ + r@,
            !old(self).finished ==> (r@.len() == 1 && (r@[0] matches StreamFrame::Error { message: m }
                && m@ == CANCELLED_MESSAGE@)),
    {
        self.on_failure(String::from_str(CANCELLED_MESSAGE))
    }
}


/// `gs[i]` takes in piece `pieces[i]` (its content and stop flag) and
/// becomes `gs[i + 1]`, handing out `outs[i]`.
pub open spec fn pieces_run(
    gs: Seq<Generation>,
    pieces: Seq<(Seq<char>, bool)>,
    outs: Seq<Seq<StreamFrame>>,
) -> bool {
    &&& gs.len() == pieces.len() + 1
    &&& outs.len() == pieces.len()
    &&& forall|i: int|
        0 <= i < pieces.len() ==> #[trigger] chunk_step(
            gs[i],
            gs[i + 1],
            pieces[i].0,
            pieces[i].1,
            outs[i],
        )
}

/// Once a piece has closed the stream, every later piece hands out nothing.
pub proof fn lemma_closed_stays_closed(
    gs: Seq<Generation>,
    pieces: Seq<(Seq<char>, bool)>,
    outs: Seq<Seq<StreamFrame>>,
    i: int,
    j: int,
)
    requires
        pieces_run(gs, pieces, outs),
        0 <= i < j < pieces.len(),
        gs[i + 1].finished,
    ensures
        gs[j].finished,
        outs[j].len() == 0,
    decreases j - i,
{
    if j > i + 1 {
        lemma_closed_stays_closed(gs, pieces, outs, i, j - 1);
        let k = j - 1;
        assert(chunk_step(gs[k], gs[k + 1], pieces[k].0, pieces[k].1, outs[k]));
        assert(k + 1 == j);
    } else {
        let k = i;
        assert(k + 1 == j);
    }
    assert(chunk_step(gs[j], gs[j + 1], pieces[j].0, pieces[j].1, outs[j]));
}

/// A two-party transcript in the text gives exactly one `Delta`, the
/// refusal line, then `Done`, and no later piece hands out anything.
pub proof fn lemma_refusal_once(
    gs: Seq<Generation>,
    pieces: Seq<(Seq<char>, bool)>,
    outs: Seq<Seq<StreamFrame>>,
    i: int,
)
    requires
        pieces_run(gs, pieces, outs),
        0 <= i < pieces.len(),
        !gs[i].finished,
        pieces[i].0.len() > 0,
        has_dialogue(gs[i].accumulated@ + pieces[i].0),
        !contains(gs[i].accumulated@ + pieces[i].0, REFUSAL_PREFIX@),
    ensures
        outs[i].len() == 2,
        outs[i][0] is Delta,
        delta_text(outs[i][0]) == ROLE_POLLUTION_FALLBACK@,
        outs[i][1] == (StreamFrame::Done { finish_reason: FinishReason::Stop, usage: gs[i + 1].usage_spec() }),
        forall|j: int| i < j < pieces.len() ==> #[trigger] outs[j].len() == 0,
{
    assert(chunk_step(gs[i], gs[i + 1], pieces[i].0, pieces[i].1, outs[i]));
    assert forall|j: int| i < j < pieces.len() implies #[trigger] outs[j].len() == 0 by {
        lemma_closed_stays_closed(gs, pieces, outs, i, j);
    }
}

/// Every stream a generation hands out has the shape `Start Delta* (Done |
/// Error)` so far, and a finished one is complete.
pub proof fn lemma_stream_shape(g: Generation)
    requires
        g.wf(),
    ensures
        stream_prefix_ok(g.history@),
        g.finished ==> stream_complete(g.history@),
{
    if g.finished {
        assert(g.history@.len() >= 2) by {
            if g.history@.len() == 1 {
                assert(g.history@[0] is Start);
            }
        }
    }
}

// ---------------------------------------------------------------------------
// Loading the model and building engine requests
// ---------------------------------------------------------------------------

/// Identity of the loaded model. `loaded_at_secs` is seconds since the Unix epoch.
#[derive(Debug, Clone)]
pub struct ModelHandle {
    pub model_id: String,
    pub loaded_at_secs: u64,
    pub context_size: usize,
}

/// What the engine adapter reports of its health.
#[derive(Debug, Clone)]
pub struct RuntimeHealth {
    pub is_healthy: bool,
    pub model_loaded: Option<ModelHandle>,
    pub active_requests: usize,
    pub uptime_seconds: u64,
}

pub open spec fn handle_eq(a: ModelHandle, b: ModelHandle) -> bool {
    a.model_id@ == b.model_id@ && a.loaded_at_secs == b.loaded_at_secs && a.context_size
        == b.context_size
}

/// Whether two handles name the same load of the same model.
pub fn same_handle(a: &ModelHandle, b: &ModelHandle) -> (r: bool)
    ensures
        r == handle_eq(*a, *b),
{
    a.model_id == b.model_id && a.loaded_at_secs == b.loaded_at_secs && a.context_size
        == b.context_size
}

/// Generation may go ahead only for the handle of the model loaded now.
pub fn check_handle(current: &Option<ModelHandle>, handle: &ModelHandle) -> (r: Result<(), Error>)
    ensures
        r is Ok <==> (*current matches Some(c) && handle_eq(c, *handle)),
        r matches Err(e) ==> e is InvalidModel,
{
    match current {
        Some(c) => {
            if same_handle(c, handle) {
                return Ok(());
            }
        },
        None => {},
    }
    Err(Error::InvalidModel(String::from_str("Model handle does not match loaded model")))
}

/// A load may go ahead only for the model this adapter is configured for.
pub fn check_model_id(requested: &str, configured: &str) -> (r: Result<(), Error>)
    ensures
        r is Ok <==> requested@ == configured@,
        r matches Err(e) ==> e is InvalidModel,
{
    let a = chars_of(requested);
    let b = chars_of(configured);
    if crate::text::seq_eq(&a, &b) {
        Ok(())
    } else {
        Err(
            Error::InvalidModel(
                String::from_str("This adapter is configured for model ").concat(configured).concat(
                    ", not ",
                ).concat(requested),
            ),
        )
    }
}

/// The error a load reports when the engine exited right after it was started.
pub open spec fn exited_message() -> Seq<char> {
    "llama-server exited immediately. Check if binary exists at "@ + ENGINE_BINARY@
}

/// After the short wait that follows a spawn: a process that is gone fails
/// the load with an error naming the binary.
pub fn check_started(process_alive: bool) -> (r: Result<(), Error>)
    ensures
        r is Ok <==> process_alive,
        r matches Err(e) ==> (e matches Error::RuntimeError(m) && m@ == exited_message()),
{
    if process_alive {
        Ok(())
    } else {
        Err(
            Error::RuntimeError(
                String::from_str("llama-server exited immediately. Check if binary exists at ").concat(
                    ENGINE_BINARY,
                ),
            ),
        )
    }
}

/// What to do after one readiness probe.
#[derive(Debug, Clone)]
pub enum ReadyStep {
    /// The engine answers its health check.
    Ready,
    /// Probe again after the poll interval.
    Wait,
    /// Give up with this error.
    Fail(Error),
}

/// Decides after probe number `attempt` (from 1): a dead process fails at
/// once, a healthy engine is ready, and the last attempt gives up.
pub fn ready_step(attempt: u32, process_alive: bool, healthy: bool) -> (r: ReadyStep)
    requires
        1 <= attempt <= SERVER_READY_MAX_ATTEMPTS,
    ensures
        !process_alive ==> r is Fail,
        process_alive && healthy ==> r is Ready,
        process_alive && !healthy ==> (if attempt == SERVER_READY_MAX_ATTEMPTS {
            r is Fail
        } else {
            r is Wait
        }),
        r matches ReadyStep::Fail(e) ==> e is RuntimeError,
{
    if !process_alive {
        return ReadyStep::Fail(Error::RuntimeError(String::from_str("llama-server process died unexpectedly")));
    }
    if healthy {
        return ReadyStep::Ready;
    }
    if attempt == SERVER_READY_MAX_ATTEMPTS {
        ReadyStep::Fail(Error::RuntimeError(String::from_str("Server failed to become ready after 60 attempts")))
    } else {
        ReadyStep::Wait
    }
}

/// The body of a completion request to the engine. Temperature, `top_p` and
/// repeat penalty are in billionths.
#[derive(Debug, Clone)]
pub struct EngineRequest {
    pub prompt: String,
    pub n_predict: usize,
    pub temperature: i64,
    pub top_p: i64,
    pub top_k: i32,
    pub repeat_penalty: i64,
    pub stop: Vec<String>,
    pub stream: bool,
}

/// The streaming completion request for `messages` under `template` and `params`.
pub fn build_engine_request(
    messages: &[Message],
    template: &TemplateConfig,
    params: &GenerationParams,
) -> (r: EngineRequest)
    ensures
        r.prompt@ == prompt_of(messages@, *template),
        r.n_predict == params.max_tokens,
        r.temperature == params.temperature,
        r.top_p == params.top_p,
        r.top_k == params.top_k,
        r.repeat_penalty == params.repeat_penalty,
        str_views(r.stop@) == str_views(params.stop_sequences@),
        r.stream,
{
    let mut stop: Vec<String> = Vec::new();
    let mut i: usize = 0;
    while i < params.stop_sequences.len()
        invariant
            i <= params.stop_sequences@.len(),
            stop@.len() == i,
            str_views(stop@) == str_views(params.stop_sequences@.subrange(0, i as int)),
        decreases params.stop_sequences.len() - i,
    {
        let ghost prev = str_views(stop@);
        stop.push(String::from_str(params.stop_sequences[i].as_str()));
        proof {
            let sub = params.stop_sequences@.subrange(0, i + 1);
            assert forall|k: int| 0 <= k < i + 1 implies str_views(stop@)[k] == str_views(sub)[k] by {
                if k < i {
                    assert(prev[k] == str_views(params.stop_sequences@.subrange(0, i as int))[k]);
                }
            }
            assert(str_views(stop@) =~= str_views(sub));
        }
        i = i + 1;
    }
    assert(params.stop_sequences@.subrange(0, params.stop_sequences@.len() as int)
        =~= params.stop_sequences@);
    EngineRequest {
        prompt: TemplateEngine::format_prompt(messages, template),
        n_predict: params.max_tokens,
        temperature: params.temperature,
        top_p: params.top_p,
        top_k: params.top_k,
        repeat_penalty: params.repeat_penalty,
        stop,
        stream: true,
    }
}

} // verus!
