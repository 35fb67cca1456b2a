//! Per-IP and global token buckets with a per-IP concurrency cap, acquired in
//! two phases with rollback. Time enters as milliseconds on a monotonic clock;
//! tokens are kept in units of 1/60000 token, so a bucket of capacity `c` per
//! minute gains exactly `c` units each millisecond.
use vstd::prelude::*;
use crate::error::Error;

verus! {

/// Units of one token; also the milliseconds of one minute.
pub const UNIT: u64 = 60_000;

/// An idle IP's state is dropped after this many milliseconds.
pub const RETENTION_MS: u64 = 300_000;

/// A bucket that holds up to `capacity` tokens and refills `capacity` tokens a minute.
#[derive(Debug, Clone, Copy)]
pub struct TokenBucket {
    pub capacity: u32,
    /// Available tokens, in units of 1/`UNIT` token.
    pub level: u64,
    pub last_refill_ms: u64,
}

pub open spec fn full_level(capacity: u32) -> int {
    capacity as int * UNIT as int
}

pub open spec fn min_int(a: int, b: int) -> int {
    if a <= b {
        a
    } else {
        b
    }
}

impl TokenBucket {
    pub open spec fn wf(self) -> bool {
        self.level as int <= full_level(self.capacity)
    }

    /// The level after refilling up to `now_ms`: the elapsed milliseconds times
    /// the capacity, capped at a full bucket.
    pub open spec fn level_at(self, now_ms: u64) -> int {
        let elapsed = if now_ms >= self.last_refill_ms {
            now_ms - self.last_refill_ms
        } else {
            0
        };
        min_int(self.level + elapsed * self.capacity, full_level(self.capacity))
    }

    /// A full bucket.
    pub fn new(capacity: u32, now_ms: u64) -> (r: TokenBucket)
        ensures
            r.wf(),
            r.capacity == capacity,
            r.level == full_level(capacity),
            r.last_refill_ms == now_ms,
    {
        TokenBucket { capacity, level: capacity as u64 * UNIT, last_refill_ms: now_ms }
    }

    /// Adds what the time since the last refill has earned.
    pub fn refill(&mut self, now_ms: u64)
        requires
            old(self).wf(),
        ensures
            final(self).wf(),
            final(self).capacity == old(self).capacity,
            final(self).level == old(self).level_at(now_ms),
            final(self).last_refill_ms == now_ms,
    {
        let elapsed = if now_ms >= self.last_refill_ms {
            now_ms - self.last_refill_ms
        } else {
            0
        };
        let full = self.capacity as u64 * UNIT;
        let gain_ms = if elapsed < UNIT {
            elapsed
        } else {
            UNIT
        };
        proof {
            assert(gain_ms * self.capacity as u64 <= UNIT * self.capacity as u64) by (
            nonlinear_arith)
                requires
                    gain_ms <= UNIT,
            ;
            assert(UNIT * self.capacity as u64 <= UNIT * 0xffff_ffffu64) by (nonlinear_arith)
                requires
                    self.capacity <= 0xffff_ffffu64,
            ;
            if elapsed >= UNIT {
                assert(elapsed * self.capacity >= UNIT * self.capacity) by (nonlinear_arith)
                    requires
                        elapsed >= UNIT,
                ;
            }
        }
        let gained = self.level + gain_ms * self.capacity as u64;
        self.level = if gained < full {
            gained
        } else {
            full
        };
        self.last_refill_ms = now_ms;
    }

    /// Refills, then takes one token if a whole one is there.
    pub fn try_consume(&mut self, now_ms: u64) -> (r: bool)
        requires
            old(self).wf(),
        ensures
            final(self).wf(),
            final(self).capacity == old(self).capacity,
            final(self).last_refill_ms == now_ms,
            r == (old(self).level_at(now_ms) >= UNIT),
            final(self).level == old(self).level_at(now_ms) - (if r {
                UNIT as int
            } else {
                0
            }),
    {
        self.refill(now_ms);
        if self.level >= UNIT {
            self.level = self.level - UNIT;
            true
        } else {
            false
        }
    }

    /// Gives one token back, without going past a full bucket.
    pub fn return_token(&mut self)
        requires
            old(self).wf(),
        ensures
            final(self).wf(),
            final(self).capacity == old(self).capacity,
            final(self).last_refill_ms == old(self).last_refill_ms,
            final(self).level == min_int(old(self).level + UNIT, full_level(old(self).capacity)),
    {
        let full = self.capacity as u64 * UNIT;
        if full - self.level >= UNIT {
            self.level = self.level + UNIT;
        } else {
            self.level = full;
        }
    }
}

/// Limits that the rate limiter enforces.
#[derive(Debug, Clone, Copy)]
pub struct RateLimiterConfig {
    /// Requests each IP may start per minute.
    pub per_ip_per_minute: u32,
    /// Requests each IP may have in flight at once.
    pub max_concurrent_per_ip: usize,
    /// Requests all IPs together may start per minute.
    pub global_per_minute: u32,
    /// Seconds between sweeps of idle IP state.
    pub cleanup_interval_secs: u64,
}

impl Default for RateLimiterConfig {
    /// 60 per IP per minute, 5 in flight per IP, 600 per minute in all, a sweep a minute.
    fn default() -> (r: Self)
        ensures
            r.per_ip_per_minute == 60,
            r.max_concurrent_per_ip == 5,
            r.global_per_minute == 600,
            r.cleanup_interval_secs == 60,
    {
        RateLimiterConfig {
            per_ip_per_minute: 60,
            max_concurrent_per_ip: 5,
            global_per_minute: 600,
            cleanup_interval_secs: 60,
        }
    }
}

/// What the limiter keeps for one IP.
#[derive(Debug, Clone, Copy)]
pub struct IpState {
    pub bucket: TokenBucket,
    pub concurrent_requests: usize,
    pub last_seen_ms: u64,
}

/// One IP, as a 128-bit address (IPv4 mapped into IPv6), with its state.
#[derive(Debug, Clone, Copy)]
pub struct IpEntry {
    pub ip: u128,
    pub state: IpState,
}

/// Per-IP and global admission control.
#[derive(Debug, Clone)]
pub struct RateLimiter {
    pub config: RateLimiterConfig,
    pub ip_states: Vec<IpEntry>,
    pub global_bucket: TokenBucket,
}



/// An entry survives a sweep at `now_ms` when it was seen within the
/// retention period or has requests in flight.
pub open spec fn retained(e: IpEntry, now_ms: u64) -> bool {
    (if now_ms >= e.state.last_seen_ms {
        now_ms - e.state.last_seen_ms
    } else {
        0
    }) < RETENTION_MS || e.state.concurrent_requests > 0
}

pub open spec fn distinct_ips(s: Seq<IpEntry>) -> bool {
    forall|i: int, j: int| 0 <= i < j < s.len() ==> s[i].ip != s[j].ip
}

pub open spec fn has_entry(s: Seq<IpEntry>, ip: u128) -> bool {
    exists|i: int| 0 <= i < s.len() && #[trigger] s[i].ip == ip
}

/// The state of the entry for `ip`, if there is one.
pub open spec fn lookup(s: Seq<IpEntry>, ip: u128) -> Option<IpState> {
    if has_entry(s, ip) {
        let i = choose|i: int| 0 <= i < s.len() && #[trigger] s[i].ip == ip;
        Some(s[i].state)
    } else {
        None
    }
}

pub proof fn lemma_lookup_at(s: Seq<IpEntry>, i: int)
    requires
        distinct_ips(s),
        0 <= i < s.len(),
    ensures
        has_entry(s, s[i].ip),
        lookup(s, s[i].ip) == Some(s[i].state),
{
    let ip = s[i].ip;
    assert(s[i].ip == ip);
    let k = choose|k: int| 0 <= k < s.len() && #[trigger] s[k].ip == ip;
    if k < i {
        assert(s[k].ip != s[i].ip);
    } else if k > i {
        assert(s[i].ip != s[k].ip);
    }
}

/// Changing the entry at `i`, its ip kept, leaves every other ip's state alone.
pub proof fn lemma_lookup_update(s: Seq<IpEntry>, i: int, e: IpEntry)
    requires
        distinct_ips(s),
        0 <= i < s.len(),
        e.ip == s[i].ip,
    ensures
        distinct_ips(s.update(i, e)),
        lookup(s.update(i, e), e.ip) == Some(e.state),
        forall|other: u128| other != e.ip ==> lookup(s.update(i, e), other) == lookup(s, other),
{
    let t = s.update(i, e);
    assert(distinct_ips(t)) by {
        assert forall|a: int, b: int| 0 <= a < b < t.len() implies t[a].ip != t[b].ip by {
            assert(s[a].ip != s[b].ip);
        }
    }
    lemma_lookup_at(t, i);
    assert forall|other: u128| other != e.ip implies lookup(t, other) == lookup(s, other) by {
        if has_entry(s, other) {
            let k = choose|k: int| 0 <= k < s.len() && #[trigger] s[k].ip == other;
            assert(t[k].ip == other);
            lemma_lookup_at(s, k);
            lemma_lookup_at(t, k);
        } else {
            if has_entry(t, other) {
                let k = choose|k: int| 0 <= k < t.len() && #[trigger] t[k].ip == other;
                assert(s[k].ip == other);
            }
        }
    }
}

/// Adding an entry for a new ip leaves every other ip's state alone.
pub proof fn lemma_lookup_push(s: Seq<IpEntry>, e: IpEntry)
    requires
        distinct_ips(s),
        !has_entry(s, e.ip),
    ensures
        distinct_ips(s.push(e)),
        lookup(s.push(e), e.ip) == Some(e.state),
        forall|other: u128| other != e.ip ==> lookup(s.push(e), other) == lookup(s, other),
{
    let t = s.push(e);
    assert(distinct_ips(t)) by {
        assert forall|a: int, b: int| 0 <= a < b < t.len() implies t[a].ip != t[b].ip by {
            if b == s.len() {
                assert(s[a].ip == t[a].ip);
            }
        }
    }
    lemma_lookup_at(t, s.len() as int);
    assert forall|other: u128| other != e.ip implies lookup(t, other) == lookup(s, other) by {
        if has_entry(s, other) {
            let k = choose|k: int| 0 <= k < s.len() && #[trigger] s[k].ip == other;
            assert(t[k].ip == other);
            lemma_lookup_at(s, k);
            lemma_lookup_at(t, k);
        } else {
            if has_entry(t, other) {
                let k = choose|k: int| 0 <= k < t.len() && #[trigger] t[k].ip == other;
                assert(s[k].ip == other);
            }
        }
    }
}

impl RateLimiter {
    pub open spec fn wf(self) -> bool {
        &&& self.global_bucket.wf()
        &&& self.global_bucket.capacity == self.config.global_per_minute
        &&& distinct_ips(self.ip_states@)
        &&& forall|i: int|
            0 <= i < self.ip_states@.len() ==> {
                let s = #[trigger] self.ip_states@[i].state;
                &&& s.bucket.wf()
                &&& s.bucket.capacity == self.config.per_ip_per_minute
                &&& s.concurrent_requests <= self.config.max_concurrent_per_ip
            }
    }

    pub open spec fn has_ip(self, ip: u128) -> bool {
        has_entry(self.ip_states@, ip)
    }

    /// The state kept for `ip`, if any.
    pub open spec fn state_of(self, ip: u128) -> Option<IpState> {
        lookup(self.ip_states@, ip)
    }

    /// The requests of `ip` in flight.
    pub open spec fn concurrent_of(self, ip: u128) -> int {
        match self.state_of(ip) {
            Some(s) => s.concurrent_requests as int,
            None => 0,
        }
    }

    /// The state of `ip` as a check at `now_ms` finds it: the kept one, or a
    /// fresh one with a full bucket.
    pub open spec fn state_or_fresh(self, ip: u128, now_ms: u64) -> IpState {
        match self.state_of(ip) {
            Some(s) => s,
            None => IpState {
                bucket: TokenBucket {
                    capacity: self.config.per_ip_per_minute,
                    level: full_level(self.config.per_ip_per_minute) as u64,
                    last_refill_ms: now_ms,
                },
                concurrent_requests: 0,
                last_seen_ms: now_ms,
            },
        }
    }

    /// Phase one admits `ip`: a free concurrency slot and a whole token.
    pub open spec fn per_ip_admits(self, ip: u128, now_ms: u64) -> bool {
        let s = self.state_or_fresh(ip, now_ms);
        s.concurrent_requests < self.config.max_concurrent_per_ip && s.bucket.level_at(now_ms)
            >= UNIT
    }

    /// Phase two admits: a whole token in the global bucket.
    pub open spec fn global_admits(self, now_ms: u64) -> bool {
        self.global_bucket.level_at(now_ms) >= UNIT
    }

    /// A limiter with no IP state and a full global bucket.
    pub fn new(config: RateLimiterConfig, now_ms: u64) -> (r: RateLimiter)
        ensures
            r.wf(),
            r.config == config,
            r.ip_states@.len() == 0,
            r.global_bucket.level == full_level(config.global_per_minute),
    {
        RateLimiter {
            config,
            ip_states: Vec::new(),
            global_bucket: TokenBucket::new(config.global_per_minute, now_ms),
        }
    }

    /// Admits one request from `ip` at `now_ms`, or refuses it with
    /// `RateLimitExceeded`. Phase one takes a concurrency slot and a token
    /// from the IP's bucket; phase two takes a token from the global bucket
    /// and, when that fails, gives phase one's slot and token back.
    pub fn check_rate_limit(&mut self, ip: u128, now_ms: u64) -> (r: Result<(), Error>)
        requires
            old(self).wf(),
        ensures
            final(self).wf(),
            final(self).config == old(self).config,
            r is Ok <==> old(self).per_ip_admits(ip, now_ms) && old(self).global_admits(now_ms),
            r matches Err(e) ==> e is RateLimitExceeded,
            r is Ok ==> admitted_step(*old(self), *final(self), ip),
            final(self).has_ip(ip),
            final(self).concurrent_of(ip) == old(self).concurrent_of(ip) + (if r is Ok {
                1int
            } else {
                0int
            }),
            forall|other: u128|
                other != ip ==> #[trigger] final(self).state_of(other) == old(self).state_of(other),
            ({
                let s0 = old(self).state_or_fresh(ip, now_ms);
                let s1 = final(self).state_of(ip)->0;
                let taken = if r is Ok {
                    UNIT as int
                } else {
                    0int
                };
                &&& s1.last_seen_ms == now_ms
                &&& s0.concurrent_requests >= old(self).config.max_concurrent_per_ip ==> {
                    &&& s1.bucket == s0.bucket
                    &&& final(self).global_bucket == old(self).global_bucket
                }
                &&& s0.concurrent_requests < old(self).config.max_concurrent_per_ip
                    && !old(self).per_ip_admits(ip, now_ms) ==> {
                    &&& s1.bucket.capacity == s0.bucket.capacity
                    &&& s1.bucket.last_refill_ms == now_ms
                    &&& s1.bucket.level == s0.bucket.level_at(now_ms)
                    &&& final(self).global_bucket == old(self).global_bucket
                }
                &&& old(self).per_ip_admits(ip, now_ms) ==> {
                    &&& s1.bucket.capacity == s0.bucket.capacity
                    &&& s1.bucket.last_refill_ms == now_ms
                    &&& s1.bucket.level == s0.bucket.level_at(now_ms) - taken
                    &&& final(self).global_bucket.capacity == old(self).global_bucket.capacity
                    &&& final(self).global_bucket.last_refill_ms == now_ms
                    &&& final(self).global_bucket.level == old(self).global_bucket.level_at(now_ms)
                        - taken
                }
            }),
    {
        let ghost s0 = self.state_or_fresh(ip, now_ms);
        let idx = match self.find_ip(ip) {
            Some(i) => i,
            None => {
                let fresh = IpEntry {
                    ip,
                    state: IpState {
                        bucket: TokenBucket::new(self.config.per_ip_per_minute, now_ms),
                        concurrent_requests: 0,
                        last_seen_ms: now_ms,
                    },
                };
                proof {
                    lemma_lookup_push(self.ip_states@, fresh);
                }
                self.ip_states.push(fresh);
                self.ip_states.len() - 1
            },
        };
        let ghost mid = self.ip_states@;
        assert(mid[idx as int].state == s0);
        let mut st = self.ip_states[idx].state;
        st.last_seen_ms = now_ms;
        if st.concurrent_requests >= self.config.max_concurrent_per_ip {
            proof {
                lemma_lookup_update(mid, idx as int, IpEntry { ip, state: st });
            }
            self.ip_states.set(idx, IpEntry { ip, state: st });
            return Err(Error::RateLimitExceeded);
        }
        if !st.bucket.try_consume(now_ms) {
            proof {
                lemma_lookup_update(mid, idx as int, IpEntry { ip, state: st });
            }
            self.ip_states.set(idx, IpEntry { ip, state: st });
            return Err(Error::RateLimitExceeded);
        }
        st.concurrent_requests = st.concurrent_requests + 1;
        proof {
            lemma_lookup_update(mid, idx as int, IpEntry { ip, state: st });
        }
        self.ip_states.set(idx, IpEntry { ip, state: st });
        if !self.global_bucket.try_consume(now_ms) {
            let ghost mid2 = self.ip_states@;
            let mut back = st;
            back.concurrent_requests = back.concurrent_requests - 1;
            back.bucket.return_token();
            proof {
                lemma_lookup_update(mid2, idx as int, IpEntry { ip, state: back });
                lemma_lookup_update(mid, idx as int, IpEntry { ip, state: back });
                assert(mid2 == mid.update(idx as int, IpEntry { ip, state: st }));
                assert(mid2.update(idx as int, IpEntry { ip, state: back }) =~= mid.update(
                    idx as int,
                    IpEntry { ip, state: back },
                ));
            }
            self.ip_states.set(idx, IpEntry { ip, state: back });
            return Err(Error::RateLimitExceeded);
        }
        Ok(())
    }

    /// Frees one of `ip`'s concurrency slots, never going below zero.
    pub fn release_request(&mut self, ip: u128)
        requires
            old(self).wf(),
        ensures
            final(self).wf(),
            final(self).config == old(self).config,
            final(self).global_bucket == old(self).global_bucket,
            final(self).concurrent_of(ip) == if old(self).concurrent_of(ip) > 0 {
                old(self).concurrent_of(ip) - 1
            } else {
                0
            },
            final(self).has_ip(ip) == old(self).has_ip(ip),
            forall|other: u128|
                other != ip ==> #[trigger] final(self).state_of(other) == old(self).state_of(other),
            released_step(*old(self), *final(self), ip),
            final(self).state_of(ip) == match old(self).state_of(ip) {
                Some(st) => Some(
                    IpState {
                        bucket: st.bucket,
                        concurrent_requests: if st.concurrent_requests > 0 {
                            (st.concurrent_requests - 1) as usize
                        } else {
                            0
                        },
                        last_seen_ms: st.last_seen_ms,
                    },
                ),
                None => None,
            },
    {
        match self.find_ip(ip) {
            Some(idx) => {
                let mut st = self.ip_states[idx].state;
                if st.concurrent_requests > 0 {
                    st.concurrent_requests = st.concurrent_requests - 1;
                }
                proof {
                    lemma_lookup_update(self.ip_states@, idx as int, IpEntry { ip, state: st });
                }
                self.ip_states.set(idx, IpEntry { ip, state: st });
            },
            None => {},
        }
    }

    /// Drops the state of every IP idle for `RETENTION_MS` or more with
    /// nothing in flight; the other entries stay, in their order.
    pub fn cleanup(&mut self, now_ms: u64)
        requires
            old(self).wf(),
        ensures
            final(self).wf(),
            final(self).config == old(self).config,
            final(self).global_bucket == old(self).global_bucket,
            final(self).ip_states@ == old(self).ip_states@.filter(|e: IpEntry| retained(e, now_ms)),
    {
        let ghost src = self.ip_states@;
        let mut kept: Vec<IpEntry> = Vec::new();
        let mut i: usize = 0;
        proof {
            reveal(Seq::filter);
            assert(src.subrange(0, 0).filter(|e: IpEntry| retained(e, now_ms)) =~= Seq::<
                IpEntry,
            >::empty());
        }
        while i < self.ip_states.len()
            invariant
                self.wf(),
                self.ip_states@ == src,
                i <= src.len(),
                kept@ == src.subrange(0, i as int).filter(|e: IpEntry| retained(e, now_ms)),
                distinct_ips(kept@),
                forall|k: int|
                    0 <= k < kept@.len() ==> exists|j: int|
                        0 <= j < i && #[trigger] src[j] == #[trigger] kept@[k],
            decreases self.ip_states.len() - i,
        {
            let e = self.ip_states[i];
            let idle = if now_ms >= e.state.last_seen_ms {
                now_ms - e.state.last_seen_ms
            } else {
                0
            };
            let ghost before = kept@;
            assert(src.subrange(0, i + 1).drop_last() =~= src.subrange(0, i as int));
            proof {
                reveal(Seq::filter);
            }
            if idle < RETENTION_MS || e.state.concurrent_requests > 0 {
                kept.push(e);
                assert forall|a: int, b: int|
                    0 <= a < b < kept@.len() implies kept@[a].ip != kept@[b].ip by {
                    if b == before.len() {
                        let j = choose|j: int| 0 <= j < i && #[trigger] src[j] == #[trigger] before[a];
                        assert(src[j].ip != src[i as int].ip);
                    }
                }
                assert forall|k: int| 0 <= k < kept@.len() implies exists|j: int|
                    0 <= j < i + 1 && #[trigger] src[j] == #[trigger] kept@[k] by {
                    if k == before.len() {
                        assert(src[i as int] == kept@[k]);
                    } else {
                        let j = choose|j: int| 0 <= j < i && #[trigger] src[j] == #[trigger] before[k];
                        assert(src[j] == kept@[k]);
                    }
                }
            }
            i = i + 1;
        }
        assert(src.subrange(0, src.len() as int) =~= src);
        proof {
            assert forall|k: int| 0 <= k < kept@.len() implies {
                let s = #[trigger] kept@[k].state;
                &&& s.bucket.wf()
                &&& s.bucket.capacity == self.config.per_ip_per_minute
                &&& s.concurrent_requests <= self.config.max_concurrent_per_ip
            } by {
                let j = choose|j: int| 0 <= j < i && #[trigger] src[j] == #[trigger] kept@[k];
                assert(src[j].state == kept@[k].state);
            }
        }
        self.ip_states = kept;
    }

    /// The index of `ip`'s entry.
    fn find_ip(&self, ip: u128) -> (r: Option<usize>)
        requires
            self.wf(),
        ensures
            match r {
                Some(i) => i < self.ip_states@.len() && self.ip_states@[i as int].ip == ip
                    && self.state_of(ip) == Some(self.ip_states@[i as int].state),
                None => !self.has_ip(ip) && self.state_of(ip) is None,
            },
    {
        let mut i: usize = 0;
        while i < self.ip_states.len()
            invariant
                self.wf(),
                i <= self.ip_states@.len(),
                forall|k: int| 0 <= k < i ==> self.ip_states@[k].ip != ip,
            decreases self.ip_states.len() - i,
        {
            if self.ip_states[i].ip == ip {
                proof {
                    lemma_lookup_at(self.ip_states@, i as int);
                }
                return Some(i);
            }
            i = i + 1;
        }
        None
    }
}

/// `after` is `before` with one more request of `ip` in flight, and every
/// other IP as it was.
pub open spec fn admitted_step(before: RateLimiter, after: RateLimiter, ip: u128) -> bool {
    &&& after.concurrent_of(ip) == before.concurrent_of(ip) + 1
    &&& forall|other: u128| other != ip ==> #[trigger] after.state_of(other) == before.state_of(other)
}

/// `after` is `before` with one request of `ip` fewer in flight (none stays
/// none), and every other IP as it was.
pub open spec fn released_step(before: RateLimiter, after: RateLimiter, ip: u128) -> bool {
    &&& after.concurrent_of(ip) == if before.concurrent_of(ip) > 0 {
        before.concurrent_of(ip) - 1
    } else {
        0
    }
    &&& forall|other: u128| other != ip ==> #[trigger] after.state_of(other) == before.state_of(other)
}

/// No IP ever has more requests in flight than the configured cap, so of
/// any number of concurrent requests from one IP at most that many are
/// admitted.
pub proof fn lemma_concurrency_cap(s: RateLimiter, ip: u128)
    requires
        s.wf(),
    ensures
        0 <= s.concurrent_of(ip) <= s.config.max_concurrent_per_ip,
{
    if s.has_ip(ip) {
        let i = choose|i: int| 0 <= i < s.ip_states@.len() && #[trigger] s.ip_states@[i].ip == ip;
        lemma_lookup_at(s.ip_states@, i);
        let st = s.ip_states@[i].state;
        assert(st.concurrent_requests <= s.config.max_concurrent_per_ip);
    }
}

/// A request admitted and later released leaves its IP's in-flight count,
/// and every other IP's state, as they were before it came.
pub proof fn lemma_release_undoes_admission(
    before: RateLimiter,
    admitted: RateLimiter,
    released: RateLimiter,
    ip: u128,
)
    requires
        admitted_step(before, admitted, ip),
        released_step(admitted, released, ip),
    ensures
        released.concurrent_of(ip) == before.concurrent_of(ip),
        forall|other: u128| other != ip ==> #[trigger] released.state_of(other) == before.state_of(other),
{
    assert(before.concurrent_of(ip) >= 0) by {
        match before.state_of(ip) {
            Some(st) => {},
            None => {},
        }
    }
    assert forall|other: u128| other != ip implies #[trigger] released.state_of(other) == before.state_of(other) by {
        assert(admitted.state_of(other) == before.state_of(other));
    }
}


} // verus!
