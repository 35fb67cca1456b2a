//! Request tracking and metrics: counters, the set of requests in flight,
//! bounded windows of latency samples with percentiles, and error counts by
//! category. Time enters as milliseconds on a monotonic clock.
use vstd::prelude::*;
use std::collections::VecDeque;
use crate::dto::new_uuid_string;
use crate::error::Error;

verus! {

/// Samples each latency window keeps; older ones are dropped.
pub const MAX_SAMPLES: usize = 10_000;

/// Recent error records kept for debugging.
pub const MAX_RECENT_ERRORS: usize = 100;

/// The id that correlates one request across metrics, logs and responses.
#[derive(Debug, Clone)]
pub struct RequestId(pub String);

impl RequestId {
    /// A fresh random id.
    pub fn new() -> (r: RequestId)
        ensures
            r.0@.len() == crate::dto::UUID_STRING_LEN,
    {
        RequestId(new_uuid_string())
    }

    pub fn from_string(s: String) -> (r: RequestId)
        ensures
            r.0@ == s@,
    {
        RequestId(s)
    }

    pub fn as_str(&self) -> (r: &str)
        ensures
            r@ == self.0@,
    {
        self.0.as_str()
    }
}

/// The coarse class of an error, as metrics count it.
#[derive(Debug, Clone, Copy, PartialEq, Eq, Structural, Hash)]
pub enum ErrorCategory {
    BadRequest,
    RateLimited,
    Timeout,
    Cancelled,
    Unavailable,
    Internal,
}

pub open spec fn category_of(e: Error) -> ErrorCategory {
    match e {
        Error::BadRequest(_) | Error::ValidationFailed(_) | Error::InvalidModel(_) => ErrorCategory::BadRequest,
        Error::RateLimitExceeded => ErrorCategory::RateLimited,
        Error::Timeout(_) => ErrorCategory::Timeout,
        Error::Cancelled(_) | Error::UserCancelled => ErrorCategory::Cancelled,
        Error::ServiceUnavailable(_) | Error::ModelLoadFailed(_) | Error::RuntimeNotReady
        | Error::ModelNotFound(_) => ErrorCategory::Unavailable,
        _ => ErrorCategory::Internal,
    }
}

impl ErrorCategory {
    pub fn from_error(error: &Error) -> (r: ErrorCategory)
        ensures
            r == category_of(*error),
    {
        match error {
            Error::BadRequest(_) | Error::ValidationFailed(_) | Error::InvalidModel(_) => ErrorCategory::BadRequest,
            Error::RateLimitExceeded => ErrorCategory::RateLimited,
            Error::Timeout(_) => ErrorCategory::Timeout,
            Error::Cancelled(_) | Error::UserCancelled => ErrorCategory::Cancelled,
            Error::ServiceUnavailable(_) | Error::ModelLoadFailed(_) | Error::RuntimeNotReady
            | Error::ModelNotFound(_) => ErrorCategory::Unavailable,
            _ => ErrorCategory::Internal,
        }
    }

    pub open spec fn name(self) -> Seq<char> {
        match self {
            ErrorCategory::BadRequest => "bad_request"@,
            ErrorCategory::RateLimited => "rate_limited"@,
            ErrorCategory::Timeout => "timeout"@,
            ErrorCategory::Cancelled => "cancelled"@,
            ErrorCategory::Unavailable => "unavailable"@,
            ErrorCategory::Internal => "internal"@,
        }
    }

    pub fn as_str(&self) -> (r: &'static str)
        ensures
            r@ == self.name(),
    {
        match self {
            ErrorCategory::BadRequest => "bad_request",
            ErrorCategory::RateLimited => "rate_limited",
            ErrorCategory::Timeout => "timeout",
            ErrorCategory::Cancelled => "cancelled",
            ErrorCategory::Unavailable => "unavailable",
            ErrorCategory::Internal => "internal",
        }
    }

    /// The category's slot in a table of six counters.
    pub open spec fn index_spec(self) -> int {
        match self {
            ErrorCategory::BadRequest => 0,
            ErrorCategory::RateLimited => 1,
            ErrorCategory::Timeout => 2,
            ErrorCategory::Cancelled => 3,
            ErrorCategory::Unavailable => 4,
            ErrorCategory::Internal => 5,
        }
    }

    pub fn index(&self) -> (r: usize)
        ensures
            r == self.index_spec(),
            r < 6,
    {
        match self {
            ErrorCategory::BadRequest => 0,
            ErrorCategory::RateLimited => 1,
            ErrorCategory::Timeout => 2,
            ErrorCategory::Cancelled => 3,
            ErrorCategory::Unavailable => 4,
            ErrorCategory::Internal => 5,
        }
    }
}

pub open spec fn is_sorted(t: Seq<u64>) -> bool {
    forall|i: int, j: int| 0 <= i <= j < t.len() ==> t[i] <= t[j]
}

/// `t` holds the values of `s` in ascending order.
pub open spec fn is_sorted_permutation(t: Seq<u64>, s: Seq<u64>) -> bool {
    is_sorted(t) && t.to_multiset() == s.to_multiset()
}

/// Relies on `slice::sort_unstable`: the same values, in ascending order.
#[verifier::external_body]
fn sort_values(v: Vec<u64>) -> (r: Vec<u64>)
    ensures
        is_sorted_permutation(r@, v@),
        r@.len() == v@.len(),
{
    let mut v = v;
    v.sort_unstable();
    v
}

/// `v` is the sample at the rank of `percentile` among `samples` sorted, or
/// 0 when there are none.
pub open spec fn is_percentile(samples: Seq<u64>, percentile: u64, v: u64) -> bool {
    if samples.len() == 0 {
        v == 0
    } else {
        exists|t: Seq<u64>|
            is_sorted_permutation(t, samples) && t.len() == samples.len() && v
                == t[percentile_index(percentile, samples.len())]
    }
}

/// The rank that a percentile picks among `n` sorted samples.
pub open spec fn percentile_index(percentile: u64, n: nat) -> int {
    (percentile * (n - 1)) / 100
}

/// The sample at rank `percentile/100 * (n-1)`, rounded down, among the
/// sorted samples; 0 when there are none.
pub fn calculate_percentile(samples: &[u64], percentile: u64) -> (r: u64)
    requires
        percentile <= 100,
    ensures
        samples@.len() == 0 ==> r == 0,
        samples@.len() > 0 ==> exists|t: Seq<u64>|
            is_sorted_permutation(t, samples@) && t.len() == samples@.len() && r
                == t[percentile_index(percentile, samples@.len())],
{
    if samples.len() == 0 {
        return 0;
    }
    let mut copy: Vec<u64> = Vec::new();
    let mut i: usize = 0;
    while i < samples.len()
        invariant
            i <= samples@.len(),
            copy@ == samples@.subrange(0, i as int),
        decreases samples.len() - i,
    {
        copy.push(samples[i]);
        i = i + 1;
        assert(copy@ =~= samples@.subrange(0, i as int));
    }
    assert(copy@ =~= samples@);
    let sorted = sort_values(copy);
    let n = sorted.len();
    assert((percentile * (n - 1) as u64) / 100 <= (n - 1) as u64) by (nonlinear_arith)
        requires
            percentile <= 100,
            n >= 1,
    ;
    assert(percentile * (n - 1) as u64 <= 100 * (n - 1) as u64) by (nonlinear_arith)
        requires
            percentile <= 100,
    ;
    let index = ((percentile as u128 * (n - 1) as u128) / 100) as usize;
    assert(index == percentile_index(percentile, samples@.len()));
    sorted[index]
}

/// The values of a window, oldest first.
fn window_values(w: &VecDeque<u64>) -> (r: Vec<u64>)
    ensures
        r@ == w@,
{
    let mut out: Vec<u64> = Vec::new();
    let mut i: usize = 0;
    while i < w.len()
        invariant
            i <= w@.len(),
            out@ == w@.subrange(0, i as int),
        decreases w.len() - i,
    {
        out.push(w[i]);
        i = i + 1;
        assert(out@ =~= w@.subrange(0, i as int));
    }
    assert(out@ =~= w@);
    out
}

/// `s` with `x` appended, the oldest value dropped once there are more than `cap`.
pub open spec fn window_push<T>(s: Seq<T>, x: T, cap: nat) -> Seq<T> {
    let t = s.push(x);
    if t.len() > cap {
        t.subrange(1, t.len() as int)
    } else {
        t
    }
}

fn push_window(w: &mut VecDeque<u64>, x: u64)
    requires
        old(w)@.len() <= MAX_SAMPLES,
    ensures
        final(w)@ == window_push(old(w)@, x, MAX_SAMPLES as nat),
        final(w)@.len() <= MAX_SAMPLES,
{
    w.push_back(x);
    if w.len() > MAX_SAMPLES {
        w.pop_front();
    }
}

fn bump(x: u64) -> (r: u64)
    ensures
        r == if x < u64::MAX {
            x + 1
        } else {
            x as int
        },
{
    if x < u64::MAX {
        x + 1
    } else {
        x
    }
}

/// A request in flight.
#[derive(Debug, Clone)]
pub struct ActiveRequest {
    pub request_id: RequestId,
    pub started_at_ms: u64,
    pub model: String,
    pub is_streaming: bool,
}

/// One recent error: when, its category, and its text.
#[derive(Debug, Clone)]
pub struct ErrorRecord {
    pub at_ms: u64,
    pub category: ErrorCategory,
    pub message: String,
}

/// A name with a count.
#[derive(Debug, Clone)]
pub struct NamedCount {
    pub name: String,
    pub count: u64,
}

/// A point-in-time copy of the metrics.
#[derive(Debug, Clone)]
pub struct MetricsSnapshot {
    pub uptime_seconds: u64,
    pub total_requests: u64,
    pub streaming_requests: u64,
    pub non_streaming_requests: u64,
    pub active_requests: u64,
    pub first_token_latency_p50_ms: u64,
    pub first_token_latency_p95_ms: u64,
    pub first_token_latency_p99_ms: u64,
    pub request_duration_p50_ms: u64,
    pub request_duration_p95_ms: u64,
    pub request_duration_p99_ms: u64,
    pub total_prompt_tokens: u64,
    pub total_completion_tokens: u64,
    pub total_chunks_sent: u64,
    pub average_tokens_per_second: u64,
    pub active_streams: u64,
    pub completed_streams: u64,
    pub failed_streams: u64,
    /// Error counts, indexed by `ErrorCategory::index`.
    pub errors_by_category: Vec<u64>,
    pub cancelled_requests: u64,
    pub timed_out_requests: u64,
    pub rate_limit_hits: u64,
    pub requests_by_model: Vec<NamedCount>,
}

/// The request ids in flight.
pub open spec fn active_ids(a: Seq<ActiveRequest>) -> Seq<Seq<char>> {
    a.map_values(|r: ActiveRequest| r.request_id.0@)
}

pub open spec fn not_this_id(id: Seq<char>) -> spec_fn(ActiveRequest) -> bool {
    |r: ActiveRequest| r.request_id.0@ != id
}


pub open spec fn min_u64(a: int, b: int) -> int {
    if a <= b {
        a
    } else {
        b
    }
}

/// Adds one to `name`'s count, or starts it at one.
fn bump_named(list: &mut Vec<NamedCount>, name: &String) -> (k: usize)
    ensures
        k < final(list)@.len(),
        final(list)@[k as int].name@ == name@,
{
    let mut i: usize = 0;
    while i < list.len()
        invariant
            i <= list@.len(),
        decreases list.len() - i,
    {
        if list[i].name == *name {
            let c = list[i].count;
            let entry = NamedCount { name: name.clone(), count: bump(c) };
            list.set(i, entry);
            return i;
        }
        i = i + 1;
    }
    list.push(NamedCount { name: name.clone(), count: 1 });
    list.len() - 1
}

fn clone_counts(list: &Vec<NamedCount>) -> (r: Vec<NamedCount>)
    ensures
        r@.len() == list@.len(),
        forall|k: int|
            0 <= k < r@.len() ==> (#[trigger] r@[k]).name@ == list@[k].name@ && r@[k].count
                == list@[k].count,
{
    let mut out: Vec<NamedCount> = Vec::new();
    let mut i: usize = 0;
    while i < list.len()
        invariant
            i <= list@.len(),
            out@.len() == i,
            forall|k: int|
                0 <= k < i ==> (#[trigger] out@[k]).name@ == list@[k].name@ && out@[k].count
                    == list@[k].count,
        decreases list.len() - i,
    {
        out.push(NamedCount { name: String::from_str(list[i].name.as_str()), count: list[i].count });
        i = i + 1;
    }
    out
}

impl ActiveRequest {
    pub fn clone_record(&self) -> (r: ActiveRequest)
        ensures
            r.request_id.0@ == self.request_id.0@,
            r.started_at_ms == self.started_at_ms,
            r.model@ == self.model@,
            r.is_streaming == self.is_streaming,
    {
        ActiveRequest {
            request_id: RequestId(self.request_id.0.clone()),
            started_at_ms: self.started_at_ms,
            model: self.model.clone(),
            is_streaming: self.is_streaming,
        }
    }
}


pub open spec fn is_active_in(a: Seq<ActiveRequest>, id: Seq<char>) -> bool {
    active_ids(a).contains(id)
}

/// The index of the first record of `id` in `a`.
pub open spec fn first_active(a: Seq<ActiveRequest>, id: Seq<char>) -> Option<int>
    decreases a.len(),
{
    if a.len() == 0 {
        None
    } else {
        match first_active(a.drop_last(), id) {
            Some(i) => Some(i),
            None => if a.last().request_id.0@ == id {
                Some(a.len() - 1)
            } else {
                None
            },
        }
    }
}

/// Takes every record of `id` out of `list`, handing back the first.
fn take_active(list: &mut Vec<ActiveRequest>, id: &RequestId) -> (r: Option<ActiveRequest>)
    ensures
        final(list)@ == old(list)@.filter(not_this_id(id.0@)),
        !is_active_in(final(list)@, id.0@),
        r is Some <==> is_active_in(old(list)@, id.0@),
        r matches Some(a) ==> a.request_id.0@ == id.0@,
        match first_active(old(list)@, id.0@) {
            Some(i) => r == Some(old(list)@[i]),
            None => r is None,
        },
{
    let ghost src = list@;
    let ghost p = not_this_id(id.0@);
    let n = list.len();
    let mut rev: Vec<ActiveRequest> = Vec::new();
    while list.len() > 0
        invariant
            rev@.len() <= src.len(),
            list@ == src.subrange(0, src.len() - rev@.len()),
            forall|m: int| 0 <= m < rev@.len() ==> rev@[m] == src[src.len() - 1 - m],
        decreases list.len(),
    {
        let x = list.pop().unwrap();
        rev.push(x);
        assert(list@ =~= src.subrange(0, src.len() - rev@.len()));
    }
    let mut found: Option<ActiveRequest> = None;
    let mut i: usize = 0;
    proof {
        reveal(Seq::filter);
        assert(src.subrange(0, 0).filter(p) =~= Seq::<ActiveRequest>::empty());
    }
    while rev.len() > 0
        invariant
            i + rev@.len() == src.len(),
            src.len() == n,
            forall|m: int| 0 <= m < rev@.len() ==> rev@[m] == src[src.len() - 1 - m],
            list@ == src.subrange(0, i as int).filter(p),
            p == not_this_id(id.0@),
            found is Some <==> exists|j: int| 0 <= j < i && #[trigger] src[j].request_id.0@ == id.0@,
            found matches Some(a) ==> a.request_id.0@ == id.0@,
            match first_active(src.subrange(0, i as int), id.0@) {
                Some(j) => found == Some(src[j]),
                None => found is None,
            },
        decreases rev.len(),
    {
        let x = rev.pop().unwrap();
        assert(x == src[i as int]);
        assert(src.subrange(0, i + 1).drop_last() =~= src.subrange(0, i as int));
        assert(src.subrange(0, i + 1).last() == x);
        proof {
            reveal(Seq::filter);
        }
        if x.request_id.0 == id.0 {
            if found.is_none() {
                found = Some(x);
            }
        } else {
            list.push(x);
        }
        i = i + 1;
    }
    assert(src.subrange(0, src.len() as int) =~= src);
    proof {
        src.filter_lemma(p);
        assert forall|k: int| 0 <= k < list@.len() implies active_ids(list@)[k] != id.0@ by {
            assert(p(list@[k]));
        }
        if is_active_in(src, id.0@) {
            let k = choose|k: int| 0 <= k < active_ids(src).len() && active_ids(src)[k] == id.0@;
            assert(src[k].request_id.0@ == id.0@);
        }
        if found is Some {
            let j = choose|j: int| 0 <= j < src.len() && #[trigger] src[j].request_id.0@ == id.0@;
            assert(active_ids(src)[j] == id.0@);
        }
    }
    found
}


/// One more, unless already at the largest count.
pub open spec fn bump_spec(x: u64) -> u64 {
    if x < u64::MAX {
        (x + 1) as u64
    } else {
        x
    }
}

/// One fewer, never below zero.
pub open spec fn drop_spec(x: u64) -> u64 {
    if x > 0 {
        (x - 1) as u64
    } else {
        0
    }
}

/// Milliseconds from `start` to `now`, zero if the clock reads earlier.
pub open spec fn elapsed_ms(now: u64, start: u64) -> u64 {
    if now >= start {
        (now - start) as u64
    } else {
        0
    }
}

pub open spec fn seq_sum(s: Seq<u64>) -> int
    decreases s.len(),
{
    if s.len() == 0 {
        0
    } else {
        seq_sum(s.drop_last()) + s.last()
    }
}

/// The mean of the samples, rounded down; 0 when there are none.
pub open spec fn average_of(s: Seq<u64>) -> int {
    if s.len() == 0 {
        0
    } else {
        seq_sum(s) / (s.len() as int)
    }
}

/// All of the gateway's metrics, as one record.
#[derive(Debug)]
pub struct ObservableMetrics {
    pub start_time_ms: u64,
    pub total_requests: u64,
    pub streaming_requests: u64,
    pub non_streaming_requests: u64,
    pub active_requests: Vec<ActiveRequest>,
    pub first_token_latencies: VecDeque<u64>,
    pub request_durations: VecDeque<u64>,
    pub tokens_per_second: VecDeque<u64>,
    pub total_prompt_tokens: u64,
    pub total_completion_tokens: u64,
    pub total_chunks_sent: u64,
    /// Error counts, indexed by `ErrorCategory::index`.
    pub errors_by_category: Vec<u64>,
    pub error_messages: VecDeque<ErrorRecord>,
    pub cancelled_requests: u64,
    pub timed_out_requests: u64,
    pub rate_limit_hits: u64,
    pub rate_limit_by_ip: Vec<NamedCount>,
    pub requests_by_model: Vec<NamedCount>,
    pub active_streams: u64,
    pub completed_streams: u64,
    pub failed_streams: u64,
}

impl ObservableMetrics {
    pub open spec fn wf(&self) -> bool {
        &&& self.total_requests == self.streaming_requests + self.non_streaming_requests
        &&& self.first_token_latencies@.len() <= MAX_SAMPLES
        &&& self.request_durations@.len() <= MAX_SAMPLES
        &&& self.tokens_per_second@.len() <= MAX_SAMPLES
        &&& self.error_messages@.len() <= MAX_RECENT_ERRORS
        &&& self.errors_by_category@.len() == 6
    }

    /// Whether request `id` is in flight.
    pub open spec fn is_active(&self, id: Seq<char>) -> bool {
        is_active_in(self.active_requests@, id)
    }

    /// Counts a new request and puts `request_id` among those in flight.
    pub fn start_request(
        &mut self,
        request_id: RequestId,
        model: String,
        is_streaming: bool,
        now_ms: u64,
    ) -> (r: RequestId)
        requires
            old(self).wf(),
        ensures
            final(self).wf(),
            r.0@ == request_id.0@,
            final(self).is_active(request_id.0@),
            final(self).active_requests@.len() > 0,
            final(self).active_requests@.drop_last() == old(self).active_requests@.filter(
                not_this_id(request_id.0@),
            ),
            final(self).active_requests@.last().request_id.0@ == request_id.0@,
            old(self).total_requests < u64::MAX ==> {
                &&& final(self).total_requests == old(self).total_requests + 1
                &&& final(self).streaming_requests == old(self).streaming_requests + (if is_streaming {
                    1int
                } else {
                    0int
                })
                &&& final(self).non_streaming_requests == old(self).non_streaming_requests + (
                if is_streaming {
                    0int
                } else {
                    1int
                })
            },
    {
        let _ = take_active(&mut self.active_requests, &request_id);
        if self.total_requests < u64::MAX {
            self.total_requests = self.total_requests + 1;
            if is_streaming {
                self.streaming_requests = self.streaming_requests + 1;
            } else {
                self.non_streaming_requests = self.non_streaming_requests + 1;
            }
        }
        if is_streaming {
            self.active_streams = bump(self.active_streams);
        }
        let _ = bump_named(&mut self.requests_by_model, &model);
        let record = ActiveRequest {
            request_id: RequestId(request_id.0.clone()),
            started_at_ms: now_ms,
            model,
            is_streaming,
        };
        let ghost prev = self.active_requests@;
        self.active_requests.push(record);
        assert(active_ids(self.active_requests@)[prev.len() as int] == request_id.0@);
        assert(self.active_requests@.drop_last() =~= prev);
        request_id
    }

    /// Takes `request_id` out of the requests in flight and records how long it ran.
    pub fn complete_request(&mut self, request_id: &RequestId, now_ms: u64)
        requires
            old(self).wf(),
        ensures
            final(self).wf(),
            !final(self).is_active(request_id.0@),
            final(self).active_requests@ == old(self).active_requests@.filter(
                not_this_id(request_id.0@),
            ),
            final(self).total_requests == old(self).total_requests,
            final(self).streaming_requests == old(self).streaming_requests,
            final(self).non_streaming_requests == old(self).non_streaming_requests,
            match first_active(old(self).active_requests@, request_id.0@) {
                Some(i) => {
                    let a = old(self).active_requests@[i];
                    &&& final(self).request_durations@ == window_push(
                        old(self).request_durations@,
                        elapsed_ms(now_ms, a.started_at_ms),
                        MAX_SAMPLES as nat,
                    )
                    &&& final(self).active_streams == if a.is_streaming {
                        drop_spec(old(self).active_streams)
                    } else {
                        old(self).active_streams
                    }
                    &&& final(self).completed_streams == if a.is_streaming {
                        bump_spec(old(self).completed_streams)
                    } else {
                        old(self).completed_streams
                    }
                },
                None => {
                    &&& final(self).request_durations@ == old(self).request_durations@
                    &&& final(self).active_streams == old(self).active_streams
                    &&& final(self).completed_streams == old(self).completed_streams
                },
            },
    {
        match take_active(&mut self.active_requests, request_id) {
            Some(request) => {
                let duration = if now_ms >= request.started_at_ms {
                    now_ms - request.started_at_ms
                } else {
                    0
                };
                push_window(&mut self.request_durations, duration);
                if request.is_streaming {
                    if self.active_streams > 0 {
                        self.active_streams = self.active_streams - 1;
                    }
                    self.completed_streams = bump(self.completed_streams);
                }
            },
            None => {},
        }
    }

    /// Counts an error under its category, keeps its text among the recent
    /// ones, and ends the request it belongs to, if any.
    pub fn record_error(&mut self, request_id: Option<&RequestId>, error: &Error, now_ms: u64)
        requires
            old(self).wf(),
        ensures
            final(self).wf(),
            final(self).total_requests == old(self).total_requests,
            ({
                let k = category_of(*error).index_spec();
                let before = old(self).errors_by_category@[k];
                final(self).errors_by_category@[k] == if before < u64::MAX {
                    before + 1
                } else {
                    before as int
                }
            }),
            category_of(*error) == ErrorCategory::RateLimited ==> final(self).rate_limit_hits
                == if old(self).rate_limit_hits < u64::MAX {
                old(self).rate_limit_hits + 1
            } else {
                old(self).rate_limit_hits as int
            },
            request_id matches Some(id) ==> !final(self).is_active(id.0@),
            request_id is None ==> final(self).active_requests@ == old(self).active_requests@,
            final(self).error_messages@.len() > 0,
            final(self).error_messages@ == window_push(
                old(self).error_messages@,
                final(self).error_messages@.last(),
                MAX_RECENT_ERRORS as nat,
            ),
            final(self).error_messages@.last().at_ms == now_ms,
            final(self).error_messages@.last().category == category_of(*error),
            final(self).error_messages@.last().message@ == error.message_spec(),
            final(self).cancelled_requests == if category_of(*error) == ErrorCategory::Cancelled {
                bump_spec(old(self).cancelled_requests)
            } else {
                old(self).cancelled_requests
            },
            final(self).timed_out_requests == if category_of(*error) == ErrorCategory::Timeout {
                bump_spec(old(self).timed_out_requests)
            } else {
                old(self).timed_out_requests
            },
            category_of(*error) != ErrorCategory::RateLimited ==> final(self).rate_limit_hits
                == old(self).rate_limit_hits,
            ({
                let streaming_ended = match request_id {
                    Some(id) => match first_active(old(self).active_requests@, id.0@) {
                        Some(i) => old(self).active_requests@[i].is_streaming,
                        None => false,
                    },
                    None => false,
                };
                &&& final(self).failed_streams == if streaming_ended {
                    bump_spec(old(self).failed_streams)
                } else {
                    old(self).failed_streams
                }
                &&& final(self).active_streams == if streaming_ended {
                    drop_spec(old(self).active_streams)
                } else {
                    old(self).active_streams
                }
            }),
    {
        let category = ErrorCategory::from_error(error);
        let k = category.index();
        let count = self.errors_by_category[k];
        self.errors_by_category.set(k, bump(count));
        self.error_messages.push_back(ErrorRecord { at_ms: now_ms, category, message: error.to_string() });
        if self.error_messages.len() > MAX_RECENT_ERRORS {
            self.error_messages.pop_front();
        }
        match category {
            ErrorCategory::Cancelled => {
                self.cancelled_requests = bump(self.cancelled_requests);
            },
            ErrorCategory::Timeout => {
                self.timed_out_requests = bump(self.timed_out_requests);
            },
            ErrorCategory::RateLimited => {
                self.rate_limit_hits = bump(self.rate_limit_hits);
            },
            _ => {},
        }
        if let Some(id) = request_id {
            if let Some(request) = take_active(&mut self.active_requests, id) {
                if request.is_streaming {
                    if self.active_streams > 0 {
                        self.active_streams = self.active_streams - 1;
                    }
                    self.failed_streams = bump(self.failed_streams);
                }
            }
        }
    }

    /// Counts a rate-limit refusal against `ip`. The total of refusals is
    /// counted once, by `record_error` on the `RateLimitExceeded` error.
    pub fn record_rate_limit(&mut self, ip: String)
        requires
            old(self).wf(),
        ensures
            final(self).wf(),
            final(self).rate_limit_hits == old(self).rate_limit_hits,
            exists|k: int|
                0 <= k < final(self).rate_limit_by_ip@.len()
                    && #[trigger] final(self).rate_limit_by_ip@[k].name@ == ip@,
    {
        let k = bump_named(&mut self.rate_limit_by_ip, &ip);
        assert(self.rate_limit_by_ip@[k as int].name@ == ip@);
    }

    pub fn record_first_token_latency(&mut self, latency_ms: u64)
        requires
            old(self).wf(),
        ensures
            final(self).wf(),
            final(self).first_token_latencies@ == window_push(
                old(self).first_token_latencies@,
                latency_ms,
                MAX_SAMPLES as nat,
            ),
    {
        push_window(&mut self.first_token_latencies, latency_ms);
    }

    pub fn record_tokens_per_second(&mut self, tps: u64)
        requires
            old(self).wf(),
        ensures
            final(self).wf(),
            final(self).tokens_per_second@ == window_push(
                old(self).tokens_per_second@,
                tps,
                MAX_SAMPLES as nat,
            ),
    {
        push_window(&mut self.tokens_per_second, tps);
    }

    /// Adds token counts, saturating at the largest count.
    pub fn record_tokens(&mut self, prompt: u64, completion: u64)
        requires
            old(self).wf(),
        ensures
            final(self).wf(),
            final(self).total_prompt_tokens == min_u64(
                old(self).total_prompt_tokens + prompt,
                u64::MAX as int,
            ),
            final(self).total_completion_tokens == min_u64(
                old(self).total_completion_tokens + completion,
                u64::MAX as int,
            ),
    {
        self.total_prompt_tokens = self.total_prompt_tokens.saturating_add(prompt);
        self.total_completion_tokens = self.total_completion_tokens.saturating_add(completion);
    }

    pub fn record_chunk(&mut self)
        requires
            old(self).wf(),
        ensures
            final(self).wf(),
            final(self).total_chunks_sent == min_u64(
                old(self).total_chunks_sent + 1,
                u64::MAX as int,
            ),
    {
        self.total_chunks_sent = bump(self.total_chunks_sent);
    }

    /// A copy of the metrics at `now_ms`, with p50, p95 and p99 of each window.
    pub fn snapshot(&self, now_ms: u64) -> (r: MetricsSnapshot)
        requires
            self.wf(),
        ensures
            r.total_requests == r.streaming_requests + r.non_streaming_requests,
            r.total_requests == self.total_requests,
            r.streaming_requests == self.streaming_requests,
            r.non_streaming_requests == self.non_streaming_requests,
            r.active_requests == self.active_requests@.len(),
            r.active_streams == self.active_streams,
            r.completed_streams == self.completed_streams,
            r.failed_streams == self.failed_streams,
            r.rate_limit_hits == self.rate_limit_hits,
            r.errors_by_category@ == self.errors_by_category@,
            is_percentile(self.first_token_latencies@, 50, r.first_token_latency_p50_ms),
            is_percentile(self.first_token_latencies@, 95, r.first_token_latency_p95_ms),
            is_percentile(self.first_token_latencies@, 99, r.first_token_latency_p99_ms),
            is_percentile(self.request_durations@, 50, r.request_duration_p50_ms),
            is_percentile(self.request_durations@, 95, r.request_duration_p95_ms),
            is_percentile(self.request_durations@, 99, r.request_duration_p99_ms),
            r.total_prompt_tokens == self.total_prompt_tokens,
            r.total_completion_tokens == self.total_completion_tokens,
            r.total_chunks_sent == self.total_chunks_sent,
            r.average_tokens_per_second == average_of(self.tokens_per_second@),
            r.cancelled_requests == self.cancelled_requests,
            r.timed_out_requests == self.timed_out_requests,
            r.uptime_seconds == elapsed_ms(now_ms, self.start_time_ms) / 1000,
            r.requests_by_model@.len() == self.requests_by_model@.len(),
            forall|k: int|
                0 <= k < r.requests_by_model@.len() ==> (#[trigger] r.requests_by_model@[k]).name@
                    == self.requests_by_model@[k].name@ && r.requests_by_model@[k].count
                    == self.requests_by_model@[k].count,
    {
        let first = window_values(&self.first_token_latencies);
        let durations = window_values(&self.request_durations);
        let tps = window_values(&self.tokens_per_second);
        let mut sum: u128 = 0;
        let mut i: usize = 0;
        while i < tps.len()
            invariant
                i <= tps@.len() <= MAX_SAMPLES,
                sum <= i * 0xffff_ffff_ffff_ffffu128,
                sum == seq_sum(tps@.subrange(0, i as int)),
            decreases tps.len() - i,
        {
            assert(tps@.subrange(0, i + 1).drop_last() =~= tps@.subrange(0, i as int));
            sum = sum + tps[i] as u128;
            i = i + 1;
        }
        assert(tps@.subrange(0, tps@.len() as int) =~= tps@);
        let average = if tps.len() > 0 {
            assert(sum / (tps.len() as u128) <= 0xffff_ffff_ffff_ffffu128) by (nonlinear_arith)
                requires
                    sum <= tps.len() * 0xffff_ffff_ffff_ffffu128,
                    tps.len() >= 1,
            ;
            (sum / tps.len() as u128) as u64
        } else {
            0
        };
        let mut errors: Vec<u64> = Vec::new();
        let mut k: usize = 0;
        while k < self.errors_by_category.len()
            invariant
                k <= self.errors_by_category@.len(),
                errors@ == self.errors_by_category@.subrange(0, k as int),
            decreases self.errors_by_category.len() - k,
        {
            errors.push(self.errors_by_category[k]);
            k = k + 1;
            assert(errors@ =~= self.errors_by_category@.subrange(0, k as int));
        }
        assert(errors@ =~= self.errors_by_category@);
        MetricsSnapshot {
            uptime_seconds: if now_ms >= self.start_time_ms {
                (now_ms - self.start_time_ms) / 1000
            } else {
                0
            },
            total_requests: self.total_requests,
            streaming_requests: self.streaming_requests,
            non_streaming_requests: self.non_streaming_requests,
            active_requests: self.active_requests.len() as u64,
            first_token_latency_p50_ms: calculate_percentile(first.as_slice(), 50),
            first_token_latency_p95_ms: calculate_percentile(first.as_slice(), 95),
            first_token_latency_p99_ms: calculate_percentile(first.as_slice(), 99),
            request_duration_p50_ms: calculate_percentile(durations.as_slice(), 50),
            request_duration_p95_ms: calculate_percentile(durations.as_slice(), 95),
            request_duration_p99_ms: calculate_percentile(durations.as_slice(), 99),
            total_prompt_tokens: self.total_prompt_tokens,
            total_completion_tokens: self.total_completion_tokens,
            total_chunks_sent: self.total_chunks_sent,
            average_tokens_per_second: average,
            active_streams: self.active_streams,
            completed_streams: self.completed_streams,
            failed_streams: self.failed_streams,
            errors_by_category: errors,
            cancelled_requests: self.cancelled_requests,
            timed_out_requests: self.timed_out_requests,
            rate_limit_hits: self.rate_limit_hits,
            requests_by_model: clone_counts(&self.requests_by_model),
        }
    }

    /// The recent errors, oldest first: age in seconds, category name, text.
    pub fn recent_errors(&self, now_ms: u64) -> (r: Vec<(u64, String, String)>)
        ensures
            r@.len() == self.error_messages@.len(),
            forall|k: int|
                0 <= k < r@.len() ==> {
                    let e = self.error_messages@[k];
                    &&& (#[trigger] r@[k]).1@ == e.category.name()
                    &&& r@[k].2@ == e.message@
                    &&& r@[k].0 == (if now_ms >= e.at_ms {
                        (now_ms - e.at_ms) / 1000
                    } else {
                        0
                    })
                },
    {
        let mut out: Vec<(u64, String, String)> = Vec::new();
        let mut i: usize = 0;
        while i < self.error_messages.len()
            invariant
                i <= self.error_messages@.len(),
                out@.len() == i,
                forall|k: int|
                    0 <= k < i ==> {
                        let e = self.error_messages@[k];
                        &&& (#[trigger] out@[k]).1@ == e.category.name()
                        &&& out@[k].2@ == e.message@
                        &&& out@[k].0 == (if now_ms >= e.at_ms {
                            (now_ms - e.at_ms) / 1000
                        } else {
                            0
                        })
                    },
            decreases self.error_messages.len() - i,
        {
            let e = &self.error_messages[i];
            let age = if now_ms >= e.at_ms {
                (now_ms - e.at_ms) / 1000
            } else {
                0
            };
            out.push((age, String::from_str(e.category.as_str()), e.message.clone()));
            i = i + 1;
        }
        out
    }

    /// Empty metrics, started at `now_ms`.
    pub fn new(now_ms: u64) -> (r: ObservableMetrics)
        ensures
            r.wf(),
            r.start_time_ms == now_ms,
            r.total_requests == 0,
            r.active_requests@.len() == 0,
    {
        let mut errors: Vec<u64> = Vec::new();
        let mut k: usize = 0;
        while k < 6
            invariant
                k <= 6,
                errors@.len() == k,
            decreases 6 - k,
        {
            errors.push(0);
            k = k + 1;
        }
        ObservableMetrics {
            start_time_ms: now_ms,
            total_requests: 0,
            streaming_requests: 0,
            non_streaming_requests: 0,
            active_requests: Vec::new(),
            first_token_latencies: VecDeque::new(),
            request_durations: VecDeque::new(),
            tokens_per_second: VecDeque::new(),
            total_prompt_tokens: 0,
            total_completion_tokens: 0,
            total_chunks_sent: 0,
            errors_by_category: errors,
            error_messages: VecDeque::new(),
            cancelled_requests: 0,
            timed_out_requests: 0,
            rate_limit_hits: 0,
            rate_limit_by_ip: Vec::new(),
            requests_by_model: Vec::new(),
            active_streams: 0,
            completed_streams: 0,
            failed_streams: 0,
        }
    }
}

/// Filtering by a predicate that every element meets changes nothing.
pub proof fn lemma_filter_keeps_all(s: Seq<ActiveRequest>, p: spec_fn(ActiveRequest) -> bool)
    requires
        forall|i: int| 0 <= i < s.len() ==> p(#[trigger] s[i]),
    ensures
        s.filter(p) == s,
    decreases s.len(),
{
    reveal(Seq::filter);
    if s.len() > 0 {
        lemma_filter_keeps_all(s.drop_last(), p);
        assert(s.drop_last().push(s.last()) =~= s);
    } else {
        assert(s.filter(p) =~= s);
    }
}

/// A request started under an id not in flight and then completed leaves
/// the requests in flight exactly as they were: the active count is the
/// number of starts less the number of completions.
pub proof fn lemma_start_then_complete(active: Seq<ActiveRequest>, record: ActiveRequest)
    requires
        !is_active_in(active, record.request_id.0@),
    ensures
        active.filter(not_this_id(record.request_id.0@)).push(record).filter(
            not_this_id(record.request_id.0@),
        ) == active,
{
    let p = not_this_id(record.request_id.0@);
    assert forall|i: int| 0 <= i < active.len() implies p(#[trigger] active[i]) by {
        if !p(active[i]) {
            assert(active_ids(active)[i] == record.request_id.0@);
        }
    }
    lemma_filter_keeps_all(active, p);
    let t = active.push(record);
    reveal(Seq::filter);
    assert(t.drop_last() =~= active);
    assert(!p(t.last()));
}


} // verus!
