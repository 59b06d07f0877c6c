//! Circuit breakers, which keep requests from endpoints that fail.

use crate::time::{elapsed_nanos, Clock, Duration, Instant};
use vstd::prelude::*;

verus! {

/// State of a circuit breaker.
#[derive(Debug, Clone, Copy, PartialEq, Eq, Structural)]
pub enum CircuitState {
    /// Requests pass.
    Closed,
    /// Requests are refused.
    Open,
    /// Requests pass to see whether the endpoint has recovered.
    HalfOpen,
}

/// Configuration of a circuit breaker.
#[derive(Debug, Clone, Copy, PartialEq, Eq, Structural)]
pub struct CircuitBreakerConfig {
    /// Failures in a row, within the window, that open the circuit.
    pub failure_threshold: u32,
    /// Successes that close a half-open circuit.
    pub success_threshold: u32,
    /// Time until an open circuit becomes half-open.
    pub open_timeout: Duration,
    /// Window for counting failures: a failure that lies farther back does not
    /// count.
    pub window_size: Duration,
}

impl Default for CircuitBreakerConfig {
    fn default() -> (c: Self)
        ensures
            c.failure_threshold == 5,
            c.success_threshold == 2,
            c.open_timeout@ == 30_000_000_000,
            c.window_size@ == 60_000_000_000,
    {
        CircuitBreakerConfig {
            failure_threshold: 5,
            success_threshold: 2,
            open_timeout: Duration::from_secs(30),
            window_size: Duration::from_secs(60),
        }
    }
}

/// What a circuit breaker remembers.
#[verifier::ext_equal]
pub struct BreakerMemory {
    /// State.
    pub state: CircuitState,
    /// When the failures happened that count, in order.
    pub failures: Seq<Instant>,
    /// Successes while half-open.
    pub successes: u32,
    /// When the circuit opened.
    pub opened_at: Option<Instant>,
    /// How often the circuit has opened. After the greatest number comes zero.
    pub open_count: u64,
}

/// The failures that lie within a window before a moment.
pub open spec fn in_window(failures: Seq<Instant>, window: nat, now: Instant) -> Seq<Instant>
    decreases failures.len(),
{
    if failures.len() == 0 {
        seq![]
    } else {
        let front = in_window(failures.drop_last(), window, now);
        if elapsed_nanos(failures.last(), now) < window {
            front.push(failures.last())
        } else {
            front
        }
    }
}

/// A counter after one more; the greatest number stays.
pub open spec fn count_up(n: u32) -> u32 {
    if n == u32::MAX {
        n
    } else {
        (n + 1) as u32
    }
}

/// The memory after the circuit opens.
pub open spec fn opened(m: BreakerMemory, now: Instant) -> BreakerMemory {
    BreakerMemory {
        state: CircuitState::Open,
        successes: 0,
        opened_at: Some(now),
        open_count: if m.open_count == u64::MAX {
            0
        } else {
            (m.open_count + 1) as u64
        },
        ..m
    }
}

/// The memory after the circuit closes.
pub open spec fn closed_again(m: BreakerMemory) -> BreakerMemory {
    BreakerMemory {
        state: CircuitState::Closed,
        failures: seq![],
        successes: 0,
        opened_at: None,
        ..m
    }
}

/// The memory after a success.
pub open spec fn after_success(m: BreakerMemory, config: CircuitBreakerConfig) -> BreakerMemory {
    match m.state {
        CircuitState::Closed => BreakerMemory { failures: seq![], ..m },
        CircuitState::HalfOpen => {
            let successes = count_up(m.successes);
            if successes >= config.success_threshold {
                closed_again(m)
            } else {
                BreakerMemory { successes, ..m }
            }
        },
        CircuitState::Open => m,
    }
}

/// The memory after a failure.
pub open spec fn after_failure(
    m: BreakerMemory,
    config: CircuitBreakerConfig,
    now: Instant,
) -> BreakerMemory {
    match m.state {
        CircuitState::Closed => {
            let counted = BreakerMemory {
                failures: in_window(m.failures, config.window_size@, now).push(now),
                ..m
            };
            if counted.failures.len() >= config.failure_threshold {
                opened(counted, now)
            } else {
                counted
            }
        },
        CircuitState::HalfOpen => opened(m, now),
        CircuitState::Open => m,
    }
}

/// An open circuit has been open for long enough to try again.
pub open spec fn may_try(m: BreakerMemory, config: CircuitBreakerConfig, now: Instant) -> bool {
    m.opened_at matches Some(t) && elapsed_nanos(t, now) >= config.open_timeout@
}

/// The memory after a request was asked for, and whether it may pass.
pub open spec fn after_request(
    m: BreakerMemory,
    config: CircuitBreakerConfig,
    now: Instant,
) -> (BreakerMemory, bool) {
    match m.state {
        CircuitState::Closed | CircuitState::HalfOpen => (m, true),
        CircuitState::Open => if may_try(m, config, now) {
            (BreakerMemory { state: CircuitState::HalfOpen, successes: 0, ..m }, true)
        } else {
            (m, false)
        },
    }
}

/// A circuit breaker.
#[derive(Debug)]
pub struct CircuitBreaker {
    config: CircuitBreakerConfig,
    state: CircuitState,
    failures: Vec<Instant>,
    successes: u32,
    opened_at: Option<Instant>,
    open_count: u64,
    clock: Clock,
}

impl CircuitBreaker {
    /// The configuration.
    pub closed spec fn config(&self) -> CircuitBreakerConfig {
        self.config
    }

    /// What the breaker remembers.
    pub closed spec fn memory(&self) -> BreakerMemory {
        BreakerMemory {
            state: self.state,
            failures: self.failures@,
            successes: self.successes,
            opened_at: self.opened_at,
            open_count: self.open_count,
        }
    }

    #[verifier::type_invariant]
    spec fn failures_are_few(self) -> bool {
        &&& self.failures@.len() <= u32::MAX
        &&& self.state == CircuitState::Closed ==> self.failures@.len() == 0
            || self.failures@.len() < self.config.failure_threshold
    }

    /// A closed breaker with the default configuration.
    pub fn new() -> (b: Self)
        ensures
            b.config().failure_threshold == 5,
            b.config().success_threshold == 2,
            b.config().open_timeout@ == 30_000_000_000,
            b.config().window_size@ == 60_000_000_000,
            b.memory() == new_memory(),
    {
        CircuitBreaker::with_config(CircuitBreakerConfig::default())
    }

    /// A closed breaker.
    pub fn with_config(config: CircuitBreakerConfig) -> (b: Self)
        ensures
            b.config() == config,
            b.memory() == new_memory(),
    {
        let b = CircuitBreaker {
            config,
            state: CircuitState::Closed,
            failures: Vec::new(),
            successes: 0,
            opened_at: None,
            open_count: 0,
            clock: Clock::new(),
        };
        assert(b.memory() =~= new_memory());
        b
    }

    /// The state.
    pub fn state(&self) -> (s: CircuitState)
        ensures
            s == self.memory().state,
    {
        self.state
    }

    /// Whether the circuit is closed.
    pub fn is_closed(&self) -> (b: bool)
        ensures
            b == (self.memory().state == CircuitState::Closed),
    {
        self.state == CircuitState::Closed
    }

    /// Whether the circuit is open.
    pub fn is_open(&self) -> (b: bool)
        ensures
            b == (self.memory().state == CircuitState::Open),
    {
        self.state == CircuitState::Open
    }

    /// Whether a request that comes at a moment would pass. The circuit stays
    /// as it is.
    pub fn would_allow_at(&self, now: &Instant) -> (b: bool)
        ensures
            b == after_request(self.memory(), self.config(), *now).1,
    {
        match self.state {
            CircuitState::Closed => true,
            CircuitState::HalfOpen => true,
            CircuitState::Open => match &self.opened_at {
                Some(t) => {
                    let elapsed = now.duration_since(t);
                    elapsed.at_least(&self.config.open_timeout)
                },
                None => false,
            },
        }
    }

    /// Whether a request may pass at a moment. An open circuit whose time is
    /// up becomes half-open.
    pub fn allow_request_at(&mut self, now: &Instant) -> (b: bool)
        ensures
            (final(self).memory(), b) == after_request(old(self).memory(), old(self).config(), *now),
            final(self).config() == old(self).config(),
    {
        proof {
            use_type_invariant(&*self);
        }
        match self.state {
            CircuitState::Closed => true,
            CircuitState::HalfOpen => true,
            CircuitState::Open => {
                let over = self.would_allow_at(now);
                if over {
                    self.state = CircuitState::HalfOpen;
                    self.successes = 0;
                }
                over
            },
        }
    }

    /// Whether a request may pass now.
    pub fn allow_request(&mut self) -> (b: bool)
        ensures
            exists|now: Instant|
                (final(self).memory(), b) == #[trigger] after_request(
                    old(self).memory(),
                    old(self).config(),
                    now,
                ),
            final(self).config() == old(self).config(),
    {
        let now = self.clock.now();
        self.allow_request_at(&now)
    }

    /// Notes a success.
    pub fn record_success(&mut self)
        ensures
            final(self).memory() == after_success(old(self).memory(), old(self).config()),
            final(self).config() == old(self).config(),
    {
        proof {
            use_type_invariant(&*self);
        }
        match self.state {
            CircuitState::Closed => {
                self.failures = Vec::new();
            },
            CircuitState::HalfOpen => {
                let successes: u32 = self.successes.saturating_add(1);
                if successes >= self.config.success_threshold {
                    self.failures = Vec::new();
                    self.state = CircuitState::Closed;
                    self.successes = 0;
                    self.opened_at = None;
                } else {
                    self.successes = successes;
                }
            },
            CircuitState::Open => {},
        }
        assert(self.memory() =~= after_success(old(self).memory(), old(self).config()));
    }

    fn transition_to_open(&mut self, now: &Instant)
        ensures
            final(self).memory() == opened(old(self).memory(), *now),
            final(self).config() == old(self).config(),
    {
        proof {
            use_type_invariant(&*self);
        }
        self.state = CircuitState::Open;
        self.successes = 0;
        self.opened_at = Some(*now);
        self.open_count = self.open_count.wrapping_add(1);
    }

    /// Notes a failure at a moment.
    pub fn record_failure_at(&mut self, now: &Instant)
        ensures
            final(self).memory() == after_failure(old(self).memory(), old(self).config(), *now),
            final(self).config() == old(self).config(),
    {
        proof {
            use_type_invariant(&*self);
        }
        match self.state {
            CircuitState::Closed => {
                let mut counted = keep_in_window(&self.failures, &self.config.window_size, now);
                counted.push(*now);
                if counted.len() >= self.config.failure_threshold as usize {
                    self.transition_to_open(now);
                }
                self.failures = counted;
            },
            CircuitState::HalfOpen => {
                self.transition_to_open(now);
            },
            CircuitState::Open => {},
        }
        assert(self.memory() =~= after_failure(old(self).memory(), old(self).config(), *now));
    }

    /// Notes a failure now.
    pub fn record_failure(&mut self)
        ensures
            exists|now: Instant|
                final(self).memory() == #[trigger] after_failure(
                    old(self).memory(),
                    old(self).config(),
                    now,
                ),
            final(self).config() == old(self).config(),
    {
        let now = self.clock.now();
        self.record_failure_at(&now)
    }

    /// Number of failures in a row that count.
    pub fn failure_count(&self) -> (n: u32)
        ensures
            n == self.memory().failures.len(),
    {
        proof {
            use_type_invariant(self);
        }
        self.failures.len() as u32
    }

    /// How often the circuit has opened.
    pub fn open_count(&self) -> (n: u64)
        ensures
            n == self.memory().open_count,
    {
        self.open_count
    }
}

fn keep_in_window(failures: &Vec<Instant>, window: &Duration, now: &Instant) -> (kept: Vec<Instant>)
    ensures
        kept@ == in_window(failures@, window@, *now),
        kept@.len() <= failures@.len(),
{
    let mut kept: Vec<Instant> = Vec::new();
    let mut i: usize = 0;
    while i < failures.len()
        invariant
            i <= failures.len(),
            kept@ == in_window(failures@.take(i as int), window@, *now),
            kept@.len() <= i,
        decreases failures.len() - i,
    {
        assert(failures@.take(i + 1).drop_last() == failures@.take(i as int));
        let elapsed = now.duration_since(&failures[i]);
        if !elapsed.at_least(window) {
            kept.push(failures[i]);
        }
        i += 1;
    }
    assert(failures@.take(i as int) == failures@);
    kept
}

impl Default for CircuitBreaker {
    fn default() -> (b: Self)
        ensures
            b.config().failure_threshold == 5,
            b.config().success_threshold == 2,
            b.config().open_timeout@ == 30_000_000_000,
            b.config().window_size@ == 60_000_000_000,
            b.memory() == new_memory(),
    {
        CircuitBreaker::new()
    }
}

/// What a new breaker remembers.
pub open spec fn new_memory() -> BreakerMemory {
    BreakerMemory {
        state: CircuitState::Closed,
        failures: seq![],
        successes: 0,
        opened_at: None,
        open_count: 0,
    }
}

/// What holds of every breaker at every time: a closed circuit counts fewer
/// failures than open it, a half-open one fewer successes than close
/// it, and the time of opening is known exactly while the circuit is not
/// closed.
pub open spec fn sound(m: BreakerMemory, config: CircuitBreakerConfig) -> bool {
    &&& m.state == CircuitState::Closed ==> m.failures.len() == 0 || m.failures.len()
        < config.failure_threshold
    &&& m.state == CircuitState::HalfOpen ==> m.successes == 0 || m.successes
        < config.success_threshold
    &&& m.opened_at is None <==> m.state == CircuitState::Closed
}

/// A new breaker is sound, and every operation keeps a breaker sound.
pub proof fn breakers_stay_sound(m: BreakerMemory, config: CircuitBreakerConfig, now: Instant)
    requires
        sound(m, config),
    ensures
        sound(new_memory(), config),
        sound(after_success(m, config), config),
        sound(after_failure(m, config, now), config),
        sound(after_request(m, config, now).0, config),
{
}

/// The memory after failures in a row at some moments.
pub open spec fn failed(
    m: BreakerMemory,
    config: CircuitBreakerConfig,
    moments: Seq<Instant>,
) -> BreakerMemory
    decreases moments.len(),
{
    if moments.len() == 0 {
        m
    } else {
        after_failure(failed(m, config, moments.drop_last()), config, moments.last())
    }
}

/// Moments lie so close together that no two are a window apart.
pub open spec fn close_together(moments: Seq<Instant>, window: nat) -> bool {
    forall|i: int, j: int|
        0 <= i < j < moments.len() ==> elapsed_nanos(#[trigger] moments[i], #[trigger] moments[j])
            < window
}

proof fn all_in_window(failures: Seq<Instant>, window: nat, now: Instant)
    requires
        forall|i: int|
            0 <= i < failures.len() ==> elapsed_nanos(#[trigger] failures[i], now) < window,
    ensures
        in_window(failures, window, now) == failures,
    decreases failures.len(),
{
    if failures.len() > 0 {
        all_in_window(failures.drop_last(), window, now);
        assert(failures.drop_last().push(failures.last()) =~= failures);
    }
}

proof fn none_in_window(failures: Seq<Instant>, window: nat, now: Instant)
    requires
        forall|i: int|
            0 <= i < failures.len() ==> elapsed_nanos(#[trigger] failures[i], now) >= window,
    ensures
        in_window(failures, window, now) == Seq::<Instant>::empty(),
    decreases failures.len(),
{
    if failures.len() > 0 {
        none_in_window(failures.drop_last(), window, now);
    }
}

/// As many failures in a row within the window as the threshold says open a
/// closed circuit, and fewer do not.
pub proof fn opens_at_threshold(config: CircuitBreakerConfig, moments: Seq<Instant>)
    requires
        config.failure_threshold > 0,
        moments.len() <= config.failure_threshold,
        close_together(moments, config.window_size@),
    ensures
        failed(new_memory(), config, moments).state == (if moments.len()
            < config.failure_threshold {
            CircuitState::Closed
        } else {
            CircuitState::Open
        }),
        failed(new_memory(), config, moments).failures == moments,
    decreases moments.len(),
{
    if moments.len() > 0 {
        let front = moments.drop_last();
        opens_at_threshold(config, front);
        assert forall|i: int| 0 <= i < front.len() implies elapsed_nanos(
            #[trigger] front[i],
            moments.last(),
        ) < config.window_size@ by {
            assert(moments[i] == front[i] && moments[moments.len() - 1] == moments.last());
        }
        all_in_window(front, config.window_size@, moments.last());
        assert(front.push(moments.last()) =~= moments);
    }
}

/// A failure after which all that counted lie farther back than the window
/// counts alone.
pub proof fn old_failures_do_not_count(
    m: BreakerMemory,
    config: CircuitBreakerConfig,
    now: Instant,
)
    requires
        m.state == CircuitState::Closed,
        forall|i: int|
            0 <= i < m.failures.len() ==> elapsed_nanos(#[trigger] m.failures[i], now)
                >= config.window_size@,
    ensures
        after_failure(m, config, now).failures == seq![now],
        config.failure_threshold > 1 ==> after_failure(m, config, now).state
            == CircuitState::Closed,
{
    none_in_window(m.failures, config.window_size@, now);
}

/// A success in between starts the count of failures of a closed circuit anew.
pub proof fn success_resets_failures(m: BreakerMemory, config: CircuitBreakerConfig)
    requires
        m.state == CircuitState::Closed,
    ensures
        after_success(m, config) == (BreakerMemory { failures: seq![], ..m }),
{
}

/// An open circuit refuses every request until its time is up, and then lets
/// one pass and is half-open.
pub proof fn open_circuit_waits(m: BreakerMemory, config: CircuitBreakerConfig, now: Instant)
    requires
        m.state == CircuitState::Open,
        m.opened_at is Some,
    ensures
        after_request(m, config, now).1 == (elapsed_nanos(m.opened_at->0, now)
            >= config.open_timeout@),
        after_request(m, config, now).0.state == (if after_request(m, config, now).1 {
            CircuitState::HalfOpen
        } else {
            CircuitState::Open
        }),
{
}

/// One failure of a half-open circuit opens it again.
pub proof fn half_open_failure_reopens(
    m: BreakerMemory,
    config: CircuitBreakerConfig,
    now: Instant,
)
    requires
        m.state == CircuitState::HalfOpen,
    ensures
        after_failure(m, config, now).state == CircuitState::Open,
        after_failure(m, config, now).opened_at == Some(now),
{
}

/// The memory after some successes in a row.
pub open spec fn succeeded(m: BreakerMemory, config: CircuitBreakerConfig, times: nat) -> BreakerMemory
    decreases times,
{
    if times == 0 {
        m
    } else {
        after_success(succeeded(m, config, (times - 1) as nat), config)
    }
}

/// As many successes as the threshold says close a circuit that has just
/// become half-open, and fewer do not.
pub proof fn closes_at_threshold(m: BreakerMemory, config: CircuitBreakerConfig, times: nat)
    requires
        m.state == CircuitState::HalfOpen,
        m.successes == 0,
        config.success_threshold > 0,
        times <= config.success_threshold,
    ensures
        times < config.success_threshold ==> succeeded(m, config, times) == (BreakerMemory {
            successes: times as u32,
            ..m
        }),
        times == config.success_threshold ==> succeeded(m, config, times) == closed_again(m),
    decreases times,
{
    if times > 0 {
        closes_at_threshold(m, config, (times - 1) as nat);
    }
}

} // verus!
