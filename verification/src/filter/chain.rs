//! Filters one behind the other.

use crate::filter::auth::AuthFilter;
use crate::filter::ratelimit::{
    client_of, limited, RateLimitConfig, RateLimitFilter, RateLimiterStore,
};
use crate::filter::request::{SmppRequest, SmppResponse};
use crate::pdu::Status;
use crate::time::{Clock, Instant};
use vstd::prelude::*;

verus! {

/// The end of a chain, which passes every request on.
#[derive(Debug, Clone, Copy, PartialEq, Eq, Structural)]
pub struct PassthroughService;

impl PassthroughService {
    /// Passes a request on.
    pub fn call(&self, request: SmppRequest) -> (r: SmppResponse)
        ensures
            r == SmppResponse::Continue(request),
    {
        SmppResponse::continue_with(request)
    }
}

/// Configuration of a chain.
#[derive(Debug, Clone, Copy)]
pub struct FilterChainBuilder {
    auth: bool,
    rate_limit: Option<RateLimitConfig>,
}

impl FilterChainBuilder {
    /// Whether clients must be known.
    pub closed spec fn needs_auth(&self) -> bool {
        self.auth
    }

    /// The rate limit.
    pub closed spec fn limit(&self) -> Option<RateLimitConfig> {
        self.rate_limit
    }

    /// A chain without filters.
    pub fn new() -> (b: Self)
        ensures
            !b.needs_auth(),
            b.limit() is None,
    {
        FilterChainBuilder { auth: false, rate_limit: None }
    }

    /// Lets only requests of known clients pass.
    pub fn with_auth(self) -> (b: Self)
        ensures
            b.needs_auth(),
            b.limit() == self.limit(),
    {
        FilterChainBuilder { auth: true, ..self }
    }

    /// Limits the rate of each client.
    pub fn with_rate_limit(self, config: RateLimitConfig) -> (b: Self)
        ensures
            b.needs_auth() == self.needs_auth(),
            b.limit() == Some(config),
    {
        FilterChainBuilder { rate_limit: Some(config), ..self }
    }

    /// The chain.
    pub fn build(self) -> (c: FilterChain)
        ensures
            c.needs_auth() == self.needs_auth(),
            match self.limit() {
                None => c.limiter() is None,
                Some(config) => c.limiter() matches Some(f) && f.store.config() == config
                    && f.store.buckets().dom() == Set::<Seq<char>>::empty(),
            },
    {
        let limiter = match self.rate_limit {
            None => None,
            Some(config) => Some(RateLimitFilter { store: RateLimiterStore::new(config) }),
        };
        FilterChain { auth: self.auth, limiter, clock: Clock::new() }
    }
}

impl Default for FilterChainBuilder {
    fn default() -> (b: Self)
        ensures
            !b.needs_auth(),
            b.limit() is None,
    {
        FilterChainBuilder::new()
    }
}

/// A chain of filters: authentication first, the rate limit last.
#[derive(Debug)]
pub struct FilterChain {
    auth: bool,
    limiter: Option<RateLimitFilter>,
    clock: Clock,
}

/// A chain answers a request at a moment.
pub open spec fn chain_processed(
    before: FilterChain,
    after: FilterChain,
    request: SmppRequest,
    now: Instant,
    ok: bool,
    r: SmppResponse,
) -> bool {
    &&& after.needs_auth() == before.needs_auth()
    &&& if before.needs_auth() && request.meta.system_id is None {
        &&& r == (SmppResponse::Reject {
            sequence: request.sequence,
            status: Status::InvalidBindStatus,
            reason: None,
        })
        &&& after.limiter() == before.limiter()
    } else {
        match before.limiter() {
            None => after.limiter() is None && r == SmppResponse::Continue(request),
            Some(filter) => {
                &&& after.limiter() matches Some(spent)
                &&& filter.store.requested(spent.store, client_of(request), now, ok)
                &&& limited(request, ok, r)
            },
        }
    }
}

impl FilterChain {
    /// Whether clients must be known.
    pub closed spec fn needs_auth(&self) -> bool {
        self.auth
    }

    /// The rate limit.
    pub closed spec fn limiter(&self) -> Option<RateLimitFilter> {
        self.limiter
    }

    /// Lets a request pass the filters at a moment.
    pub fn process_at(&mut self, request: SmppRequest, now: &Instant) -> (r: SmppResponse)
        ensures
            exists|ok: bool| #[trigger]
                chain_processed(*old(self), *final(self), request, *now, ok, r),
    {
        let ghost asked = request;
        let passed = if self.auth {
            AuthFilter::call(request)
        } else {
            SmppResponse::Continue(request)
        };
        match passed {
            SmppResponse::Continue(request) => match &mut self.limiter {
                None => {
                    let r = PassthroughService.call(request);
                    assert(chain_processed(*old(self), *self, asked, *now, true, r));
                    r
                },
                Some(filter) => {
                    let ghost before = filter.store;
                    let r = filter.call_at(request, now);
                    let ghost after = filter.store;
                    proof {
                        let ok = choose|ok: bool| #[trigger]
                            before.requested(after, client_of(asked), *now, ok) && limited(
                                asked,
                                ok,
                                r,
                            );
                        assert(chain_processed(*old(self), *self, asked, *now, ok, r));
                    }
                    r
                },
            },
            other => {
                assert(chain_processed(*old(self), *self, asked, *now, true, other));
                other
            },
        }
    }

    /// Lets a request pass the filters now.
    pub fn process(&mut self, request: SmppRequest) -> (r: SmppResponse)
        ensures
            exists|now: Instant, ok: bool| #[trigger]
                chain_processed(*old(self), *final(self), request, now, ok, r),
    {
        let now = self.clock.now();
        self.process_at(request, &now)
    }
}

/// Without filters every request passes.
pub proof fn empty_chains_let_everything_pass(
    before: FilterChain,
    after: FilterChain,
    request: SmppRequest,
    now: Instant,
    ok: bool,
    r: SmppResponse,
)
    requires
        !before.needs_auth(),
        before.limiter() is None,
        chain_processed(before, after, request, now, ok, r),
    ensures
        r == SmppResponse::Continue(request),
{
}

/// A request of an unknown client uses up no token where clients must be
/// known.
pub proof fn strangers_use_no_tokens(
    before: FilterChain,
    after: FilterChain,
    request: SmppRequest,
    now: Instant,
    ok: bool,
    r: SmppResponse,
)
    requires
        before.needs_auth(),
        request.meta.system_id is None,
        chain_processed(before, after, request, now, ok, r),
    ensures
        r is Reject,
        after.limiter() == before.limiter(),
{
}

} // verus!
