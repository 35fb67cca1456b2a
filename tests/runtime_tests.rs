use chatsafe::dto::{FinishReason, StreamFrame, Usage};
use chatsafe::engine::{
    build_engine_request, check_model_id, check_started, event_payloads, ready_step, EngineChunk, Generation, ReadyStep, SseDecoder, ENGINE_BINARY,
};
use chatsafe::error::Error;
use chatsafe::handler::{build_response, collect_frames};
use chatsafe::observability::{calculate_percentile, ErrorCategory, ObservableMetrics, RequestId};
use chatsafe::rate_limiter::{RateLimiter, RateLimiterConfig, UNIT};
use chatsafe::streaming::{sse_data, CleanupGuard, SseEvent, StreamProducer};
use chatsafe::template::{TemplateConfig, ROLE_POLLUTION_FALLBACK};

const LOCALHOST: u128 = 0xffff_7f00_0001;
const LOCALHOST_2: u128 = 0xffff_7f00_0002;

fn config(per_ip: u32, max_concurrent: usize, global: u32) -> RateLimiterConfig {
    RateLimiterConfig {
        per_ip_per_minute: per_ip,
        max_concurrent_per_ip: max_concurrent,
        global_per_minute: global,
        cleanup_interval_secs: 60,
    }
}

fn concurrent(limiter: &RateLimiter, ip: u128) -> Option<usize> {
    limiter.ip_states.iter().find(|e| e.ip == ip).map(|e| e.state.concurrent_requests)
}

#[test]
fn test_rate_limiting() {
    let mut limiter = RateLimiter::new(config(10, 2, 100), 0);
    for _ in 0..10 {
        assert!(limiter.check_rate_limit(LOCALHOST, 0).is_ok());
        limiter.release_request(LOCALHOST);
    }
    assert!(limiter.check_rate_limit(LOCALHOST, 0).is_err());
}

#[test]
fn test_concurrent_limit() {
    let mut limiter = RateLimiter::new(config(100, 2, 1000), 0);
    assert!(limiter.check_rate_limit(LOCALHOST, 0).is_ok());
    assert!(limiter.check_rate_limit(LOCALHOST, 0).is_ok());
    assert!(limiter.check_rate_limit(LOCALHOST, 0).is_err());
    limiter.release_request(LOCALHOST);
    assert!(limiter.check_rate_limit(LOCALHOST, 0).is_ok());
}

#[test]
fn test_global_limit_rollback() {
    let mut limiter = RateLimiter::new(config(100, 10, 1), 0);
    assert!(limiter.check_rate_limit(LOCALHOST, 0).is_ok());
    let refused = limiter.check_rate_limit(LOCALHOST_2, 0);
    assert!(matches!(refused, Err(Error::RateLimitExceeded)));
    assert_eq!(concurrent(&limiter, LOCALHOST_2), Some(0));
    let entry = limiter.ip_states.iter().find(|e| e.ip == LOCALHOST_2).unwrap();
    assert_eq!(entry.state.bucket.level, 100 * UNIT);
}

#[test]
fn bucket_refills_with_time() {
    let mut limiter = RateLimiter::new(config(1, 5, 100), 0);
    assert!(limiter.check_rate_limit(LOCALHOST, 0).is_ok());
    limiter.release_request(LOCALHOST);
    assert!(limiter.check_rate_limit(LOCALHOST, 30_000).is_err());
    assert!(limiter.check_rate_limit(LOCALHOST, 60_000).is_ok());
}

#[test]
fn release_never_goes_below_zero_and_cleanup_drops_idle_ips() {
    let mut limiter = RateLimiter::new(config(10, 2, 100), 0);
    limiter.release_request(LOCALHOST);
    assert_eq!(concurrent(&limiter, LOCALHOST), None);
    assert!(limiter.check_rate_limit(LOCALHOST, 0).is_ok());
    assert!(limiter.check_rate_limit(LOCALHOST_2, 0).is_ok());
    limiter.release_request(LOCALHOST);
    limiter.release_request(LOCALHOST);
    assert_eq!(concurrent(&limiter, LOCALHOST), Some(0));
    limiter.cleanup(299_999);
    assert_eq!(limiter.ip_states.len(), 2);
    limiter.cleanup(300_000);
    assert_eq!(limiter.ip_states.len(), 1);
    assert_eq!(concurrent(&limiter, LOCALHOST_2), Some(1));
}

#[test]
fn default_rate_limiter_config() {
    let c = RateLimiterConfig::default();
    assert_eq!((c.per_ip_per_minute, c.max_concurrent_per_ip, c.global_per_minute), (60, 5, 600));
}

#[test]
fn test_percentile_calculation() {
    let samples = vec![10, 20, 30, 40, 50, 60, 70, 80, 90, 100];
    assert_eq!(calculate_percentile(&samples, 50), 50);
    assert_eq!(calculate_percentile(&samples, 95), 90);
    assert_eq!(calculate_percentile(&samples, 99), 90);
}

#[test]
fn percentile_sorts_and_handles_empty() {
    assert_eq!(calculate_percentile(&[], 50), 0);
    assert_eq!(calculate_percentile(&[30, 10, 20], 100), 30);
    assert_eq!(calculate_percentile(&[30, 10, 20], 0), 10);
}

#[test]
fn test_request_tracking() {
    let mut metrics = ObservableMetrics::new(0);
    let req_id = metrics.start_request(RequestId::new(), "test-model".to_string(), true, 0);
    let snapshot = metrics.snapshot(10);
    assert_eq!(snapshot.total_requests, 1);
    assert_eq!(snapshot.active_requests, 1);
    assert_eq!(snapshot.active_streams, 1);
    metrics.complete_request(&req_id, 25);
    let snapshot = metrics.snapshot(30);
    assert_eq!(snapshot.active_requests, 0);
    assert_eq!(snapshot.active_streams, 0);
    assert_eq!(snapshot.completed_streams, 1);
    assert_eq!(snapshot.request_duration_p50_ms, 25);
    assert_eq!(snapshot.total_requests, snapshot.streaming_requests + snapshot.non_streaming_requests);
}

#[test]
fn test_error_categorization() {
    let mut metrics = ObservableMetrics::new(0);
    metrics.record_error(None, &Error::BadRequest("test".into()), 0);
    metrics.record_error(None, &Error::RateLimitExceeded, 0);
    let snapshot = metrics.snapshot(0);
    assert_eq!(snapshot.errors_by_category[ErrorCategory::BadRequest.index()], 1);
    assert_eq!(snapshot.errors_by_category[ErrorCategory::RateLimited.index()], 1);
    assert_eq!(snapshot.rate_limit_hits, 1);
}

#[test]
fn error_ends_a_stream_and_is_kept_as_recent() {
    let mut metrics = ObservableMetrics::new(0);
    let id = metrics.start_request(RequestId::from_string("r1".to_string()), "m".to_string(), true, 0);
    metrics.record_error(Some(&id), &Error::UserCancelled, 2_500);
    let snapshot = metrics.snapshot(3_000);
    assert_eq!(snapshot.active_requests, 0);
    assert_eq!(snapshot.failed_streams, 1);
    assert_eq!(snapshot.cancelled_requests, 1);
    let recent = metrics.recent_errors(4_600);
    assert_eq!(recent, vec![(2, "cancelled".to_string(), "Generation cancelled by user".to_string())]);
    assert_eq!(ErrorCategory::from_error(&Error::ModelNotFound("x".into())), ErrorCategory::Unavailable);
    assert_eq!(ErrorCategory::Unavailable.as_str(), "unavailable");
}

#[test]
fn first_token_latency_window() {
    let mut metrics = ObservableMetrics::new(0);
    metrics.record_first_token_latency(40);
    metrics.record_first_token_latency(10);
    metrics.record_first_token_latency(20);
    metrics.record_tokens(5, 7);
    metrics.record_chunk();
    let s = metrics.snapshot(0);
    assert_eq!(s.first_token_latency_p50_ms, 20);
    assert_eq!(s.total_prompt_tokens, 5);
    assert_eq!(s.total_completion_tokens, 7);
    assert_eq!(s.total_chunks_sent, 1);
}

fn template() -> TemplateConfig {
    TemplateConfig {
        id: "llama3".to_string(),
        name: "Llama 3".to_string(),
        system_prefix: "<|start_header_id|>system<|end_header_id|>\n\n".to_string(),
        system_suffix: "<|eot_id|>".to_string(),
        user_prefix: "<|start_header_id|>user<|end_header_id|>\n\n".to_string(),
        user_suffix: "<|eot_id|>".to_string(),
        assistant_prefix: "<|start_header_id|>assistant<|end_header_id|>\n\n".to_string(),
        assistant_suffix: "<|eot_id|>".to_string(),
        default_system_prompt: "You are helpful.".to_string(),
    }
}

fn generation() -> Generation {
    let stops = vec!["<|eot_id|>".to_string(), "<|end_of_text|>".to_string()];
    let (g, start) = Generation::begin(
        "rid".to_string(),
        "model".to_string(),
        template(),
        stops,
        "<|end_of_text|>".to_string(),
        "0123456789ab",
    );
    assert!(matches!(start, StreamFrame::Start { .. }));
    g
}

fn piece(content: &str, stop: bool) -> EngineChunk {
    EngineChunk { content: content.to_string(), stop }
}

fn deltas(frames: &[StreamFrame]) -> Vec<String> {
    frames
        .iter()
        .filter_map(|f| match f {
            StreamFrame::Delta { content } => Some(content.clone()),
            _ => None,
        })
        .collect()
}

#[test]
fn happy_path_stream_frames() {
    let mut g = generation();
    let a = g.on_chunk(&piece("Hello", false));
    assert_eq!(deltas(&a), vec!["Hello".to_string()]);
    let b = g.on_chunk(&piece(" world", true));
    assert_eq!(deltas(&b), vec![" world".to_string()]);
    match b.last() {
        Some(StreamFrame::Done { finish_reason, usage }) => {
            assert_eq!(*finish_reason, FinishReason::Stop);
            assert_eq!(*usage, Usage { prompt_tokens: 3, completion_tokens: 2, total_tokens: 5 });
        }
        _ => panic!("stream should end with Done"),
    }
    assert!(g.on_chunk(&piece("more", false)).is_empty());
    assert!(g.on_end().is_empty());
}

#[test]
fn marker_scrub_stops_at_the_turn_boundary() {
    let mut g = generation();
    let out = g.on_chunk(&piece("Hello<|eot_id|><|start_header_id|>user<|end_header_id|>ignored", false));
    assert_eq!(deltas(&out), vec!["Hello".to_string()]);
    assert!(matches!(out.last(), Some(StreamFrame::Done { finish_reason: FinishReason::Stop, .. })));
    assert!(g.finished);
}

#[test]
fn dialogue_leak_refuses_once() {
    let mut g = generation();
    let a = g.on_chunk(&piece("AI: hi\n", false));
    assert_eq!(deltas(&a).len(), 1);
    let b = g.on_chunk(&piece("You: hi\n", false));
    assert_eq!(deltas(&b), vec![ROLE_POLLUTION_FALLBACK.to_string()]);
    assert!(matches!(b.last(), Some(StreamFrame::Done { .. })));
    assert!(g.on_chunk(&piece("...", false)).is_empty());
}

#[test]
fn cancellation_ends_with_an_error_frame() {
    let mut g = generation();
    let _ = g.on_chunk(&piece("Hel", false));
    let out = g.on_cancel();
    assert!(matches!(&out[..], [StreamFrame::Error { message }] if message == "Request cancelled"));
    assert!(g.on_failure("late".to_string()).is_empty());
}

#[test]
fn every_marker_is_stripped_from_pieces() {
    let mut g = generation();
    let out = g.on_chunk(&piece("<|im_end|>hi<|im_start|>", false));
    assert_eq!(deltas(&out), vec!["hi".to_string()]);
}

#[test]
fn stop_in_a_later_piece_closes_with_usage() {
    let mut g = generation();
    let _ = g.on_chunk(&piece("Hello", false));
    let out = g.on_chunk(&piece("<|eot_id|><|start_header_id|>user", false));
    assert!(deltas(&out).is_empty());
    match out.last() {
        Some(StreamFrame::Done { finish_reason, usage }) => {
            assert_eq!(*finish_reason, FinishReason::Stop);
            assert_eq!(*usage, Usage { prompt_tokens: 3, completion_tokens: 2, total_tokens: 5 });
        }
        _ => panic!("the stop sequence closes the stream"),
    }
}

#[test]
fn release_keeps_the_tokens() {
    let mut limiter = RateLimiter::new(config(10, 2, 100), 0);
    assert!(limiter.check_rate_limit(LOCALHOST, 0).is_ok());
    let level = limiter.ip_states[0].state.bucket.level;
    limiter.release_request(LOCALHOST);
    assert_eq!(limiter.ip_states[0].state.bucket.level, level);
    assert_eq!(limiter.ip_states[0].state.concurrent_requests, 0);
}

#[test]
fn a_refusal_is_counted_once() {
    let mut metrics = ObservableMetrics::new(0);
    metrics.record_error(None, &Error::RateLimitExceeded, 0);
    metrics.record_rate_limit("127.0.0.1".to_string());
    assert_eq!(metrics.snapshot(0).rate_limit_hits, 1);
}

#[test]
fn whitespace_piece_is_not_sent_and_body_end_closes() {
    let mut g = generation();
    assert!(g.on_chunk(&piece("   ", false)).is_empty());
    let out = g.on_end();
    assert!(matches!(&out[..], [StreamFrame::Done { .. }]));
}

#[test]
fn sse_decoder_splits_events() {
    let mut d = SseDecoder::new();
    let first = d.push(b"data: {\"content\":\"a\",\"stop\":false}\n\ndata: {\"con");
    assert_eq!(first.len(), 1);
    assert_eq!(event_payloads(&first[0]), vec!["{\"content\":\"a\",\"stop\":false}".to_string()]);
    let second = d.push(b"tent\":\"b\",\"stop\":true}\n\n");
    assert_eq!(second.len(), 1);
    let payloads = event_payloads(&second[0]);
    let mut g = generation();
    let frames = g.on_payload(&payloads[0]).unwrap();
    assert_eq!(deltas(&frames), vec!["b".to_string()]);
    assert!(matches!(frames.last(), Some(StreamFrame::Done { .. })));
    assert!(d.buffer.is_empty());
}

#[test]
fn malformed_engine_frames_are_skipped() {
    let mut g = generation();
    assert!(g.on_payload("not json").is_none());
    assert!(g.on_payload("{\"content\": 3, \"stop\": false}").is_none());
    assert!(!g.finished);
    let out = g.on_payload("{\"content\":\"x\",\"stop\":false,\"extra\":1}").unwrap();
    assert_eq!(deltas(&out), vec!["x".to_string()]);
    assert!(!g.finished);
}

#[test]
fn load_decisions() {
    assert!(check_model_id("m", "m").is_ok());
    assert!(matches!(check_model_id("a", "b"), Err(Error::InvalidModel(_))));
    match check_started(false) {
        Err(Error::RuntimeError(m)) => assert!(m.contains(ENGINE_BINARY)),
        _ => panic!("a process that exited must fail the load"),
    }
    assert!(check_started(true).is_ok());
    assert!(matches!(ready_step(3, false, true), ReadyStep::Fail(_)));
    assert!(matches!(ready_step(3, true, true), ReadyStep::Ready));
    assert!(matches!(ready_step(3, true, false), ReadyStep::Wait));
    assert!(matches!(ready_step(60, true, false), ReadyStep::Fail(_)));
}

#[test]
fn engine_request_carries_prompt_and_params() {
    let messages = vec![chatsafe::dto::Message { role: chatsafe::dto::Role::User, content: "hi".to_string() }];
    let params = chatsafe::dto::GenerationParams::default();
    let req = build_engine_request(&messages, &template(), &params);
    assert!(req.prompt.ends_with("<|start_header_id|>assistant<|end_header_id|>\n\n"));
    assert!(req.prompt.contains("hi<|eot_id|>"));
    assert_eq!(req.n_predict, 256);
    assert_eq!(req.stop.len(), 3);
    assert!(req.stream);
}

#[test]
fn producer_turns_frames_into_events() {
    let mut p = StreamProducer::new("rid".to_string(), "model".to_string(), 7);
    let start = p.process_frame(Ok(StreamFrame::Start {
        id: "rid".to_string(),
        model: "model".to_string(),
        role: chatsafe::dto::Role::Assistant,
    }));
    assert!(start.keep_going);
    match &start.events[..] {
        [SseEvent::Chunk(c)] => {
            assert_eq!(c.object, "chat.completion.chunk");
            assert_eq!(c.choices[0].delta.role, Some(chatsafe::dto::Role::Assistant));
        }
        _ => panic!("start gives one role chunk"),
    }
    let d1 = p.process_frame(Ok(StreamFrame::Delta { content: "hi".to_string() }));
    assert!(d1.record_first_token && d1.record_chunk);
    let d2 = p.process_frame(Ok(StreamFrame::Delta { content: "!".to_string() }));
    assert!(!d2.record_first_token && d2.record_chunk);
    let done = p.process_frame(Ok(StreamFrame::Done { finish_reason: FinishReason::Stop, usage: Usage::zero() }));
    assert!(!done.keep_going);
    assert!(matches!(&done.events[..], [SseEvent::Chunk(_), SseEvent::Done]));
    let after = p.process_frame(Ok(StreamFrame::Delta { content: "x".to_string() }));
    assert!(after.events.is_empty());
}

#[test]
fn producer_error_events() {
    let mut p = StreamProducer::new("rid".to_string(), "model".to_string(), 7);
    let e = p.process_frame(Ok(StreamFrame::Error { message: "Request cancelled".to_string() }));
    assert!(matches!(&e.events[..], [SseEvent::Error { message, error_type }]
        if message == "Request cancelled" && error_type == "runtime_error"));
    let mut q = StreamProducer::new("rid".to_string(), "model".to_string(), 7);
    let e = q.process_frame(Err(Error::Timeout(30)));
    assert!(matches!(&e.events[..], [SseEvent::Error { error_type, .. }] if error_type == "stream_error"));
    assert_eq!(sse_data("[DONE]"), "data: [DONE]\n\n");
}

#[test]
fn cleanup_runs_once() {
    let mut g = CleanupGuard::new();
    assert!(g.release());
    assert!(!g.release());
}

#[test]
fn non_streaming_collection() {
    let frames = vec![
        StreamFrame::Start { id: "r".to_string(), model: "m".to_string(), role: chatsafe::dto::Role::Assistant },
        StreamFrame::Delta { content: "Hel".to_string() },
        StreamFrame::Delta { content: "lo".to_string() },
        StreamFrame::Done {
            finish_reason: FinishReason::Length,
            usage: Usage { prompt_tokens: 1, completion_tokens: 2, total_tokens: 3 },
        },
    ];
    let c = collect_frames(&frames).unwrap();
    assert_eq!(c.content, "Hello");
    assert_eq!(c.finish_reason, FinishReason::Length);
    let resp = build_response("r", "m", 5, c);
    assert_eq!(resp.choices[0].message.content, "Hello");
    assert_eq!(resp.usage.total_tokens, 3);
    let failing = vec![
        StreamFrame::Delta { content: "a".to_string() },
        StreamFrame::Error { message: "boom".to_string() },
    ];
    assert!(matches!(collect_frames(&failing), Err(Error::RuntimeError(m)) if m == "boom"));
}

#[test]
fn happy_path_streaming_scenario() {
    let (mut g, start) = Generation::begin(
        "rid".to_string(),
        "model".to_string(),
        template(),
        vec!["<|eot_id|>".to_string()],
        "<|end_of_text|>".to_string(),
        "prompt",
    );
    let mut frames = vec![start];
    frames.extend(g.on_chunk(&piece("hi there", false)));
    frames.extend(g.on_chunk(&piece("", true)));
    let mut producer = StreamProducer::new("rid".to_string(), "model".to_string(), 1);
    let mut events = Vec::new();
    for f in frames {
        let out = producer.process_frame(Ok(f));
        events.extend(out.events);
        if !out.keep_going {
            break;
        }
    }
    match &events[0] {
        SseEvent::Chunk(c) => assert_eq!(c.choices[0].delta.role, Some(chatsafe::dto::Role::Assistant)),
        _ => panic!("first event carries the role"),
    }
    assert!(events.iter().any(|e| matches!(e, SseEvent::Chunk(c) if c.choices[0].delta.content.is_some())));
    let n = events.len();
    assert!(matches!(&events[n - 1], SseEvent::Done));
    match &events[n - 2] {
        SseEvent::Chunk(c) => assert_eq!(c.choices[0].finish_reason, Some(FinishReason::Stop)),
        _ => panic!("the last chunk carries the finish reason"),
    }
}

#[test]
fn cancellation_mid_stream_scenario() {
    let mut limiter = RateLimiter::new(RateLimiterConfig::default(), 0);
    let mut metrics = ObservableMetrics::new(0);
    assert!(limiter.check_rate_limit(LOCALHOST, 0).is_ok());
    let id = metrics.start_request(RequestId::from_string("rid".to_string()), "m".to_string(), true, 0);
    let mut g = generation();
    let mut producer = StreamProducer::new("rid".to_string(), "model".to_string(), 1);
    let _ = producer.process_frame(Ok(StreamFrame::Delta { content: "Hel".to_string() }));
    let mut guard = CleanupGuard::new();
    for f in g.on_cancel() {
        let out = producer.process_frame(Ok(f));
        match &out.events[..] {
            [SseEvent::Error { message, error_type }] => {
                assert_eq!(error_type, "runtime_error");
                assert!(message.contains("cancel"));
            }
            _ => panic!("a cancelled stream ends with one error event"),
        }
        assert!(!out.keep_going);
    }
    if guard.release() {
        limiter.release_request(LOCALHOST);
        metrics.complete_request(&id, 50);
    }
    assert!(!guard.release());
    assert_eq!(concurrent(&limiter, LOCALHOST), Some(0));
    assert_eq!(metrics.snapshot(60).active_requests, 0);
}

#[test]
fn dialogue_leak_in_one_piece_gives_only_the_refusal() {
    let mut g = generation();
    let out = g.on_chunk(&piece("AI: hi\nYou: hi\n...", false));
    assert_eq!(out.len(), 2);
    assert_eq!(deltas(&out), vec![ROLE_POLLUTION_FALLBACK.to_string()]);
    assert!(matches!(out[1], StreamFrame::Done { .. }));
}

#[test]
fn malformed_payloads_leave_the_usage_alone() {
    let mut g = generation();
    assert!(g.on_payload("{\"content\":\"Hi\",\"stop\":false}").is_some());
    assert!(g.on_payload("{broken").is_none());
    assert!(g.on_payload("{\"stop\":true}").is_none());
    let out = g.on_payload("{\"content\":\" there\",\"stop\":true}").unwrap();
    assert_eq!(deltas(&out), vec![" there".to_string()]);
    match out.last() {
        Some(StreamFrame::Done { usage, .. }) => {
            assert_eq!(*usage, Usage { prompt_tokens: 3, completion_tokens: 2, total_tokens: 5 });
        }
        _ => panic!("the stop flag closes the stream"),
    }
}
