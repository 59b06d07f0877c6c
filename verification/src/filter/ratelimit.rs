//! Rate limits: a token bucket for each client.

use crate::collections::StringMap;
use crate::double::{seconds_times, seconds_times_up_to};
use crate::filter::request::{SmppRequest, SmppResponse};
use crate::pdu::Status;
use crate::text::opt_text;
use crate::time::{elapsed_nanos, Clock, Instant};
use vstd::prelude::*;

verus! {

/// Rate limit configuration.
#[derive(Debug, Clone, Copy, PartialEq, Eq, Structural)]
pub struct RateLimitConfig {
    /// Requests per second.
    pub requests_per_second: u32,
    /// Requests that may come at once.
    pub burst_size: u32,
}

impl Default for RateLimitConfig {
    fn default() -> (c: Self)
        ensures
            c == (RateLimitConfig { requests_per_second: 100, burst_size: 100 }),
    {
        RateLimitConfig { requests_per_second: 100, burst_size: 100 }
    }
}

impl RateLimitConfig {
    /// A rate, with bursts of one second.
    pub fn new(requests_per_second: u32) -> (c: Self)
        ensures
            c == (RateLimitConfig { requests_per_second, burst_size: requests_per_second }),
    {
        RateLimitConfig { requests_per_second, burst_size: requests_per_second }
    }

    /// Sets the size of bursts.
    pub fn with_burst(self, burst: u32) -> (c: Self)
        ensures
            c == (RateLimitConfig { burst_size: burst, ..self }),
    {
        RateLimitConfig { burst_size: burst, ..self }
    }
}

/// A bucket of tokens, filled at a rate up to a capacity.
#[derive(Debug, Clone, Copy, PartialEq, Eq, Structural)]
pub struct TokenBucket {
    /// Tokens in the bucket.
    pub tokens: u64,
    /// When the bucket was last filled.
    pub last_refill: Instant,
    /// Tokens per second.
    pub rate: u32,
    /// Most tokens that the bucket holds.
    pub capacity: u32,
}

/// The whole tokens that come in a span of nanoseconds: the seconds times the
/// rate, in double precision.
pub open spec fn tokens_in(nanos: nat, rate: u32) -> nat {
    seconds_times(nanos, rate as nat)
}

/// A bucket after it was filled. Time in which less than a whole token came
/// still counts for the next filling.
pub open spec fn refilled(b: TokenBucket, now: Instant) -> TokenBucket {
    let new = tokens_in(elapsed_nanos(b.last_refill, now), b.rate);
    if new > 0 {
        TokenBucket {
            tokens: if b.tokens + new <= b.capacity {
                (b.tokens + new) as u64
            } else {
                b.capacity as u64
            },
            last_refill: now,
            ..b
        }
    } else {
        b
    }
}

/// A bucket after a token was asked for, and whether there was one.
pub open spec fn acquired(b: TokenBucket, now: Instant) -> (TokenBucket, bool) {
    let full = refilled(b, now);
    if full.tokens == 0 {
        (full, false)
    } else {
        (TokenBucket { tokens: (full.tokens - 1) as u64, ..full }, true)
    }
}

impl TokenBucket {
    /// A full bucket.
    pub fn new(rate: u32, capacity: u32, now: Instant) -> (b: Self)
        ensures
            b == (TokenBucket { tokens: capacity as u64, last_refill: now, rate, capacity }),
    {
        TokenBucket { tokens: capacity as u64, last_refill: now, rate, capacity }
    }

    /// Takes a token at a moment, if there is one.
    pub fn try_acquire_at(&mut self, now: &Instant) -> (ok: bool)
        ensures
            (*final(self), ok) == acquired(*old(self), *now),
    {
        let elapsed = now.duration_since(&self.last_refill);
        let new: u64 = seconds_times_up_to(elapsed.as_nanos(), self.rate);
        if new > 0 {
            let sum: u128 = self.tokens as u128 + new as u128;
            self.tokens = if sum <= self.capacity as u128 {
                sum as u64
            } else {
                self.capacity as u64
            };
            self.last_refill = *now;
        }
        if self.tokens == 0 {
            return false;
        }
        self.tokens = self.tokens - 1;
        true
    }

    /// The tokens in the bucket.
    pub fn available(&self) -> (n: u64)
        ensures
            n == self.tokens,
    {
        self.tokens
    }
}

/// The buckets of the clients.
#[derive(Debug)]
pub struct RateLimiterStore {
    buckets: StringMap<TokenBucket>,
    default_config: RateLimitConfig,
    clock: Clock,
}

/// The bucket of a client; a new one is full.
pub open spec fn bucket_of(
    buckets: Map<Seq<char>, TokenBucket>,
    config: RateLimitConfig,
    client: Seq<char>,
    now: Instant,
) -> TokenBucket {
    if buckets.dom().contains(client) {
        buckets[client]
    } else {
        TokenBucket {
            tokens: config.burst_size as u64,
            last_refill: now,
            rate: config.requests_per_second,
            capacity: config.burst_size,
        }
    }
}

impl RateLimiterStore {
    /// The buckets by client.
    pub closed spec fn buckets(&self) -> Map<Seq<char>, TokenBucket> {
        self.buckets@
    }

    /// The limits of a new client.
    pub closed spec fn config(&self) -> RateLimitConfig {
        self.default_config
    }

    /// A request of a client at a moment leads from one store to another.
    pub open spec fn requested(
        &self,
        after: RateLimiterStore,
        client: Seq<char>,
        now: Instant,
        ok: bool,
    ) -> bool {
        let step = acquired(bucket_of(self.buckets(), self.config(), client, now), now);
        &&& after.config() == self.config()
        &&& after.buckets() == self.buckets().insert(client, step.0)
        &&& ok == step.1
    }

    /// A store without clients.
    pub fn new(default_config: RateLimitConfig) -> (s: Self)
        ensures
            s.buckets() == Map::<Seq<char>, TokenBucket>::empty(),
            s.config() == default_config,
    {
        RateLimiterStore { buckets: StringMap::new(), default_config, clock: Clock::new() }
    }

    /// Takes a token of a client at a moment, if there is one.
    pub fn try_acquire_at(&mut self, client_id: &str, now: &Instant) -> (ok: bool)
        ensures
            old(self).requested(*final(self), client_id@, *now, ok),
    {
        let mut bucket = match self.buckets.get(client_id) {
            Some(b) => *b,
            None => TokenBucket::new(
                self.default_config.requests_per_second,
                self.default_config.burst_size,
                *now,
            ),
        };
        let ok = bucket.try_acquire_at(now);
        self.buckets.insert(client_id.to_owned(), bucket);
        ok
    }

    /// Takes a token of a client now, if there is one.
    pub fn try_acquire(&mut self, client_id: &str) -> (ok: bool)
        ensures
            exists|now: Instant| #[trigger]
                old(self).requested(*final(self), client_id@, now, ok),
    {
        let now = self.clock.now();
        self.try_acquire_at(client_id, &now)
    }
}

/// The client that a request is counted for.
pub open spec fn client_of(request: SmppRequest) -> Seq<char> {
    match request.meta.system_id {
        Some(id) => id@,
        None => "anonymous"@,
    }
}

/// What a request is answered, given whether there was a token for it.
pub open spec fn limited(request: SmppRequest, ok: bool, response: SmppResponse) -> bool {
    if ok {
        response == SmppResponse::Continue(request)
    } else {
        response matches SmppResponse::Reject { sequence, status, reason } && sequence
            == request.sequence && status == Status::SystemError && opt_text(reason) == Some(
            "rate limit exceeded"@,
        )
    }
}

/// A filter that rejects requests above the rate of their client.
#[derive(Debug)]
pub struct RateLimitFilter {
    /// The buckets of the clients.
    pub store: RateLimiterStore,
}

impl RateLimitFilter {
    /// Answers a request, given whether there was a token for it.
    pub fn respond(request: SmppRequest, ok: bool) -> (r: SmppResponse)
        ensures
            limited(request, ok, r),
    {
        if ok {
            SmppResponse::Continue(request)
        } else {
            SmppResponse::reject_with_reason(
                request.sequence,
                Status::SystemError,
                "rate limit exceeded",
            )
        }
    }

    /// Asks for a token for a request at a moment, and answers it.
    pub fn call_at(&mut self, request: SmppRequest, now: &Instant) -> (r: SmppResponse)
        ensures
            exists|ok: bool| #[trigger]
                old(self).store.requested(final(self).store, client_of(request), *now, ok)
                    && limited(request, ok, r),
    {
        let ok = match &request.meta.system_id {
            Some(id) => self.store.try_acquire_at(id.as_str(), now),
            None => self.store.try_acquire_at("anonymous", now),
        };
        assert(old(self).store.requested(self.store, client_of(request), *now, ok));
        RateLimitFilter::respond(request, ok)
    }

    /// Asks for a token for a request now, and answers it.
    pub fn call(&mut self, request: SmppRequest) -> (r: SmppResponse)
        ensures
            exists|now: Instant, ok: bool| #[trigger]
                old(self).store.requested(final(self).store, client_of(request), now, ok)
                    && limited(request, ok, r),
    {
        let now = self.store.clock.now();
        self.call_at(request, &now)
    }
}

/// A bucket never holds more tokens than its capacity.
pub proof fn bucket_stays_bounded(b: TokenBucket, now: Instant)
    requires
        b.tokens <= b.capacity,
    ensures
        acquired(b, now).0.tokens <= b.capacity,
        acquired(b, now).0.capacity == b.capacity,
        acquired(b, now).0.rate == b.rate,
{
}

/// A bucket after some requests at one moment.
pub open spec fn drained(b: TokenBucket, now: Instant, requests: nat) -> TokenBucket
    decreases requests,
{
    if requests == 0 {
        b
    } else {
        acquired(drained(b, now, (requests - 1) as nat), now).0
    }
}

/// Of requests that come at once, as many pass as there are tokens, and no
/// more.
pub proof fn burst_is_limited(b: TokenBucket, requests: nat)
    ensures
        ({
            let before = drained(b, b.last_refill, requests);
            &&& before.tokens == if requests <= b.tokens {
                (b.tokens - requests) as u64
            } else {
                0
            }
            &&& before.last_refill == b.last_refill
            &&& before.rate == b.rate
            &&& before.capacity == b.capacity
            &&& acquired(before, b.last_refill).1 == (requests < b.tokens)
        }),
    decreases requests,
{
    assert(tokens_in(0, b.rate) == 0);
    if requests > 0 {
        burst_is_limited(b, (requests - 1) as nat);
    }
}

/// Requests of one client leave the buckets of the others as they are.
pub proof fn clients_are_separate(
    s: RateLimiterStore,
    after: RateLimiterStore,
    client: Seq<char>,
    other: Seq<char>,
    now: Instant,
    later: Instant,
    ok: bool,
)
    requires
        s.requested(after, client, now, ok),
        other != client,
    ensures
        bucket_of(after.buckets(), after.config(), other, later) == bucket_of(
            s.buckets(),
            s.config(),
            other,
            later,
        ),
{
}

} // verus!
