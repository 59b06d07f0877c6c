//! An upstream endpoint: its health, its circuit breaker and its pool.

use crate::cluster::circuit_breaker::{
    after_failure, after_request, after_success, new_memory, BreakerMemory, CircuitBreaker,
    CircuitBreakerConfig, CircuitState,
};
use crate::cluster::health::{count_up, HealthChecker, HealthState};
use crate::cluster::pool::{
    new_pool, permits_add_up, pool_step, released, warm_step, wrap_up, ConnectionPool, PoolAction,
    PoolEvent, PoolView, WarmEvent,
};
use crate::config::types::{EndpointConfig, HealthCheckConfig, PoolConfig};
use crate::time::{elapsed_nanos, Clock, Duration, Instant};
use vstd::prelude::*;

verus! {

/// State of an endpoint.
#[derive(Debug, Clone, Copy, PartialEq, Eq, Structural)]
pub enum EndpointState {
    /// It takes connections.
    Healthy,
    /// It failed its health checks.
    Unhealthy,
    /// It takes no new connections.
    Draining,
}

/// Something that an endpoint has to decide on while a connection is asked
/// for.
#[derive(Debug, Clone, Copy, PartialEq, Eq, Structural)]
pub enum EndpointEvent {
    /// A connection is asked for.
    Asked,
    /// Something happened in the pool.
    Pool(PoolEvent),
}

/// What holds of an endpoint.
#[verifier::ext_equal]
pub struct EndpointView {
    /// Cluster name.
    pub cluster: Seq<char>,
    /// Position in the cluster.
    pub index: nat,
    /// Address, host and port.
    pub address: Seq<char>,
    /// System ID to bind with.
    pub system_id: Seq<char>,
    /// Password to bind with.
    pub password: Seq<char>,
    /// System type.
    pub system_type: Seq<char>,
    /// Weight for load balancing.
    pub weight: u32,
    /// Pool.
    pub pool: PoolView,
    /// Failed health checks in a row.
    pub failures: u32,
    /// Health checks in a row that succeeded.
    pub successes: u32,
    /// Configuration of the health checks.
    pub health_config: HealthCheckConfig,
    /// What the circuit breaker remembers.
    pub breaker: BreakerMemory,
    /// Configuration of the circuit breaker.
    pub breaker_config: CircuitBreakerConfig,
    /// State.
    pub state: EndpointState,
    /// Connections in use.
    pub active: nat,
    /// Connections handed out so far.
    pub total: nat,
    /// Whether the state is healthy.
    pub healthy: bool,
}

/// An endpoint is in full health: its checks went well and its circuit is
/// closed.
pub open spec fn in_health(e: EndpointView) -> bool {
    e.healthy && e.breaker.state == CircuitState::Closed
}

/// An endpoint takes connections at a moment: its checks went well, and its
/// circuit lets a request pass. An open circuit does so when its time is up.
pub open spec fn takes_connections(e: EndpointView, now: Instant) -> bool {
    e.healthy && after_request(e.breaker, e.breaker_config, now).1
}

/// The endpoint after something happened in its pool, and what is to be done
/// next.
pub open spec fn pool_moved(e: EndpointView, event: PoolEvent, now: Instant) -> (
    EndpointView,
    PoolAction,
) {
    let (pool, action) = pool_step(e.pool, event);
    let after = EndpointView { pool, ..e };
    match action {
        PoolAction::HandOut(_) => (
            EndpointView { active: wrap_up(e.active), total: wrap_up(e.total), ..after },
            action,
        ),
        PoolAction::GiveUp => (
            EndpointView { breaker: after_failure(e.breaker, e.breaker_config, now), ..after },
            action,
        ),
        _ => (after, action),
    }
}

/// The endpoint after an event while a connection is asked for, and what is to
/// be done next.
pub open spec fn endpoint_step(e: EndpointView, event: EndpointEvent, now: Instant) -> (
    EndpointView,
    PoolAction,
) {
    match event {
        EndpointEvent::Asked => if !takes_connections(e, now) {
            (e, PoolAction::GiveUp)
        } else {
            let breaker = after_request(e.breaker, e.breaker_config, now).0;
            pool_moved(EndpointView { breaker, ..e }, PoolEvent::Asked, now)
        },
        EndpointEvent::Pool(event) => pool_moved(e, event, now),
    }
}

/// One less, with the greatest number before zero.
pub open spec fn wrap_down(n: nat) -> nat {
    if n == 0 {
        usize::MAX as nat
    } else {
        (n - 1) as nat
    }
}

/// The endpoint after a connection was given back.
pub open spec fn connection_returned(e: EndpointView, success: bool, now: Instant) -> EndpointView {
    EndpointView {
        active: wrap_down(e.active),
        breaker: if success {
            after_success(e.breaker, e.breaker_config)
        } else {
            after_failure(e.breaker, e.breaker_config, now)
        },
        ..e
    }
}

/// The endpoint in another state.
pub open spec fn in_state(e: EndpointView, state: EndpointState) -> EndpointView {
    if e.state == state {
        e
    } else {
        EndpointView { state, healthy: state == EndpointState::Healthy, ..e }
    }
}

/// The endpoint after a health check.
pub open spec fn health_checked(e: EndpointView, ok: bool) -> EndpointView {
    if ok {
        let counted = EndpointView { failures: 0, successes: count_up(e.successes), ..e };
        if counted.successes >= e.health_config.healthy_threshold {
            in_state(counted, EndpointState::Healthy)
        } else {
            counted
        }
    } else {
        let counted = EndpointView { successes: 0, failures: count_up(e.failures), ..e };
        if counted.failures >= e.health_config.unhealthy_threshold {
            in_state(counted, EndpointState::Unhealthy)
        } else {
            counted
        }
    }
}

/// An upstream endpoint.
#[derive(Debug)]
pub struct Endpoint {
    cluster: String,
    index: usize,
    address: String,
    system_id: String,
    password: String,
    system_type: String,
    weight: u32,
    pool: ConnectionPool,
    health: HealthChecker,
    circuit_breaker: CircuitBreaker,
    state: EndpointState,
    active_connections: usize,
    total_requests: usize,
    healthy: bool,
    clock: Clock,
}

impl View for Endpoint {
    type V = EndpointView;

    closed spec fn view(&self) -> EndpointView {
        EndpointView {
            cluster: self.cluster@,
            index: self.index as nat,
            address: self.address@,
            system_id: self.system_id@,
            password: self.password@,
            system_type: self.system_type@,
            weight: self.weight,
            pool: self.pool@,
            failures: self.health.failures(),
            successes: self.health.successes(),
            health_config: self.health.config(),
            breaker: self.circuit_breaker.memory(),
            breaker_config: self.circuit_breaker.config(),
            state: self.state,
            active: self.active_connections as nat,
            total: self.total_requests as nat,
            healthy: self.healthy,
        }
    }
}

/// A new endpoint.
pub open spec fn is_new_endpoint(
    e: EndpointView,
    cluster: Seq<char>,
    index: nat,
    config: EndpointConfig,
    pool_config: PoolConfig,
    health_config: HealthCheckConfig,
) -> bool {
    &&& e.cluster == cluster
    &&& e.index == index
    &&& e.address == config.address@
    &&& e.system_id == config.system_id@
    &&& e.password == config.password@
    &&& e.system_type == config.system_type@
    &&& e.weight == config.weight
    &&& e.pool == new_pool(
        cluster,
        config.address@,
        config.system_id@,
        config.password@,
        pool_config,
    )
    &&& e.failures == 0
    &&& e.successes == 0
    &&& e.health_config == health_config
    &&& e.breaker == new_memory()
    &&& e.breaker_config.failure_threshold == 5
    &&& e.breaker_config.success_threshold == 2
    &&& e.breaker_config.open_timeout@ == 30_000_000_000
    &&& e.breaker_config.window_size@ == 60_000_000_000
    &&& e.state == EndpointState::Healthy
    &&& e.active == 0
    &&& e.total == 0
    &&& e.healthy
}

impl Endpoint {
    /// The pool's permits add up, and the healthy flag says what the state is.
    pub open spec fn well_formed(&self) -> bool {
        consistent(self@)
    }

    /// A healthy endpoint without connections.
    pub fn new(
        cluster: &str,
        index: usize,
        config: &EndpointConfig,
        pool_config: &PoolConfig,
        health_config: &HealthCheckConfig,
    ) -> (e: Self)
        ensures
            e.well_formed(),
            is_new_endpoint(
                e@,
                cluster@,
                index as nat,
                *config,
                *pool_config,
                *health_config,
            ),
    {
        Endpoint {
            cluster: cluster.to_string(),
            index,
            address: config.address.clone(),
            system_id: config.system_id.clone(),
            password: config.password.clone(),
            system_type: config.system_type.clone(),
            weight: config.weight,
            pool: ConnectionPool::new(
                cluster,
                config.address.as_str(),
                config.system_id.as_str(),
                config.password.as_str(),
                pool_config,
            ),
            health: HealthChecker::new(health_config),
            circuit_breaker: CircuitBreaker::new(),
            state: EndpointState::Healthy,
            active_connections: 0,
            total_requests: 0,
            healthy: true,
            clock: Clock::new(),
        }
    }

    /// Address.
    pub fn address(&self) -> (s: &str)
        ensures
            s@ == self@.address,
    {
        self.address.as_str()
    }

    /// System ID to bind with.
    pub fn system_id(&self) -> (s: &str)
        ensures
            s@ == self@.system_id,
    {
        self.system_id.as_str()
    }

    /// Password to bind with.
    pub fn password(&self) -> (s: &str)
        ensures
            s@ == self@.password,
    {
        self.password.as_str()
    }

    /// Weight.
    pub fn weight(&self) -> (n: u32)
        ensures
            n == self@.weight,
    {
        self.weight
    }

    /// Connections in use.
    pub fn active_connections(&self) -> (n: usize)
        ensures
            n == self@.active,
    {
        self.active_connections
    }

    /// Connections handed out so far.
    pub fn total_requests(&self) -> (n: usize)
        ensures
            n == self@.total,
    {
        self.total_requests
    }

    /// Whether the endpoint is in full health.
    pub fn is_healthy(&self) -> (b: bool)
        ensures
            b == in_health(self@),
    {
        self.healthy && self.circuit_breaker.is_closed()
    }

    /// Whether the endpoint takes connections at a moment.
    pub fn takes_connections_at(&self, now: &Instant) -> (b: bool)
        ensures
            b == takes_connections(self@, *now),
    {
        self.healthy && self.circuit_breaker.would_allow_at(now)
    }

    /// The time now, by the clock of the endpoint. It rests on the machine's
    /// clock.
    pub fn now(&self) -> Instant {
        self.clock.now()
    }

    /// State.
    pub fn state(&self) -> (s: EndpointState)
        ensures
            s == self@.state,
    {
        self.state
    }

    /// Time between health checks.
    pub fn health_interval(&self) -> (d: Duration)
        ensures
            d == self@.health_config.interval,
    {
        self.health.interval()
    }

    /// Time after which a health check has failed.
    pub fn health_timeout(&self) -> (d: Duration)
        ensures
            d == self@.health_config.timeout,
    {
        self.health.timeout()
    }

    /// How long to wait for a permit of the pool.
    pub fn acquire_timeout(&self) -> (d: Duration)
        ensures
            d@ == self@.pool.acquire_timeout,
    {
        self.pool.acquire_timeout()
    }

    fn pool_event(&mut self, event: PoolEvent, now: &Instant) -> (action: PoolAction)
        requires
            old(self).well_formed(),
        ensures
            final(self).well_formed(),
            (final(self)@, action) == pool_moved(old(self)@, event, *now),
    {
        let action = self.pool.get(event);
        match action {
            PoolAction::HandOut(_) => {
                self.active_connections = self.active_connections.wrapping_add(1);
                self.total_requests = self.total_requests.wrapping_add(1);
            },
            PoolAction::GiveUp => {
                self.circuit_breaker.record_failure_at(now);
            },
            _ => {},
        }
        action
    }

    /// Takes note of an event while a connection is asked for at a moment, and
    /// says what is to be done next.
    pub fn get_connection_at(&mut self, event: EndpointEvent, now: &Instant) -> (action: PoolAction)
        requires
            old(self).well_formed(),
        ensures
            final(self).well_formed(),
            (final(self)@, action) == endpoint_step(old(self)@, event, *now),
    {
        match event {
            EndpointEvent::Asked => {
                if !self.healthy {
                    return PoolAction::GiveUp;
                }
                if !self.circuit_breaker.allow_request_at(now) {
                    return PoolAction::GiveUp;
                }
                self.pool_event(PoolEvent::Asked, now)
            },
            EndpointEvent::Pool(event) => self.pool_event(event, now),
        }
    }

    /// Takes note of an event while a connection is asked for now, and says
    /// what is to be done next.
    pub fn get_connection(&mut self, event: EndpointEvent) -> (action: PoolAction)
        requires
            old(self).well_formed(),
        ensures
            final(self).well_formed(),
            exists|now: Instant|
                (final(self)@, action) == #[trigger] endpoint_step(old(self)@, event, now),
    {
        let now = self.clock.now();
        self.get_connection_at(event, &now)
    }

    /// Notes at a moment that a connection is no longer used, and whether it
    /// served its purpose.
    pub fn return_connection_at(&mut self, success: bool, now: &Instant)
        requires
            old(self).well_formed(),
        ensures
            final(self).well_formed(),
            final(self)@ == connection_returned(old(self)@, success, *now),
    {
        self.active_connections = self.active_connections.wrapping_sub(1);
        if success {
            self.circuit_breaker.record_success();
        } else {
            self.circuit_breaker.record_failure_at(now);
        }
    }

    /// Notes now that a connection is no longer used, and whether it served
    /// its purpose.
    pub fn return_connection(&mut self, success: bool)
        requires
            old(self).well_formed(),
        ensures
            final(self).well_formed(),
            exists|now: Instant|
                final(self)@ == #[trigger] connection_returned(old(self)@, success, now),
    {
        let now = self.clock.now();
        self.return_connection_at(success, &now)
    }

    /// Gives the permit of a connection back to the pool.
    pub fn release(&mut self)
        requires
            old(self).well_formed(),
        ensures
            final(self).well_formed(),
            final(self)@ == (EndpointView { pool: released(old(self)@.pool), ..old(self)@ }),
    {
        self.pool.release();
    }

    /// Takes note of an event while the pool is warmed, and says whether to
    /// make one more connection.
    pub fn warm(&mut self, event: WarmEvent) -> (connect: bool)
        requires
            old(self).well_formed(),
        ensures
            final(self).well_formed(),
            final(self)@ == (EndpointView {
                pool: warm_step(old(self)@.pool, event).0,
                ..old(self)@
            }),
            connect == warm_step(old(self)@.pool, event).1,
    {
        self.pool.warm(event)
    }

    /// Changes the state; the answer says whether it was another.
    pub fn set_state(&mut self, state: EndpointState) -> (changed: bool)
        requires
            old(self).well_formed(),
        ensures
            final(self).well_formed(),
            final(self)@ == in_state(old(self)@, state),
            changed == (old(self)@.state != state),
    {
        if self.state == state {
            return false;
        }
        self.state = state;
        self.healthy = state == EndpointState::Healthy;
        true
    }

    /// Takes note of a health check; the answer says whether the state
    /// changed.
    pub fn perform_health_check(&mut self, result: &HealthState) -> (changed: bool)
        requires
            old(self).well_formed(),
        ensures
            final(self).well_formed(),
            final(self)@ == health_checked(old(self)@, *result is Healthy),
            changed == (final(self)@.state != old(self)@.state),
    {
        match result {
            HealthState::Healthy => {
                if self.health.record_success() {
                    self.set_state(EndpointState::Healthy)
                } else {
                    false
                }
            },
            HealthState::Unhealthy(_) => {
                if self.health.record_failure() {
                    self.set_state(EndpointState::Unhealthy)
                } else {
                    false
                }
            },
        }
    }
}

/// The pool's permits add up, and the healthy flag says what the state is.
pub open spec fn consistent(e: EndpointView) -> bool {
    &&& permits_add_up(e.pool)
    &&& e.healthy == (e.state == EndpointState::Healthy)
}

/// An endpoint that is unhealthy or whose circuit lets no request pass hands
/// out no connection, and stays as it is when one is asked for.
pub proof fn no_connection_while_unhealthy(e: EndpointView, now: Instant)
    requires
        !takes_connections(e, now),
    ensures
        endpoint_step(e, EndpointEvent::Asked, now) == (e, PoolAction::GiveUp),
{
}

/// An endpoint whose circuit has opened takes no connection until the time of
/// the circuit is up. Then it is tried again, with a half-open circuit.
pub proof fn open_circuits_are_tried_again(e: EndpointView, now: Instant)
    requires
        e.healthy,
        e.breaker.state == CircuitState::Open,
        e.breaker.opened_at is Some,
    ensures
        takes_connections(e, now) <==> elapsed_nanos(e.breaker.opened_at->0, now)
            >= e.breaker_config.open_timeout@,
        takes_connections(e, now) ==> {
            let half_open = BreakerMemory {
                state: CircuitState::HalfOpen,
                successes: 0,
                ..e.breaker
            };
            endpoint_step(e, EndpointEvent::Asked, now) == pool_moved(
                EndpointView { breaker: half_open, ..e },
                PoolEvent::Asked,
                now,
            )
        },
{
}

/// An endpoint in full health takes connections at every moment.
pub proof fn healthy_endpoints_take_connections(e: EndpointView, now: Instant)
    requires
        in_health(e),
    ensures
        takes_connections(e, now),
{
}

/// A connection that was handed out and given back with success leaves the
/// count of connections as it was.
pub proof fn returned_connections_are_not_counted(e: EndpointView, now: Instant, later: Instant)
    requires
        e.active <= usize::MAX,
        endpoint_step(e, EndpointEvent::Asked, now).1 is HandOut,
    ensures
        connection_returned(
            endpoint_step(e, EndpointEvent::Asked, now).0,
            true,
            later,
        ).active == e.active,
{
}

/// The endpoint after some failed health checks in a row.
pub open spec fn checks_failed(e: EndpointView, times: nat) -> EndpointView
    decreases times,
{
    if times == 0 {
        e
    } else {
        health_checked(checks_failed(e, (times - 1) as nat), false)
    }
}

/// An endpoint becomes unhealthy exactly when as many health checks in a row
/// have failed as its threshold says.
pub proof fn unhealthy_at_threshold(e: EndpointView, times: nat)
    requires
        e.state == EndpointState::Healthy,
        e.failures == 0,
        e.health_config.unhealthy_threshold > 0,
        times <= e.health_config.unhealthy_threshold,
    ensures
        checks_failed(e, times).failures == times,
        checks_failed(e, times).health_config == e.health_config,
        checks_failed(e, times).state == (if times < e.health_config.unhealthy_threshold {
            EndpointState::Healthy
        } else {
            EndpointState::Unhealthy
        }),
    decreases times,
{
    if times > 0 {
        unhealthy_at_threshold(e, (times - 1) as nat);
    }
}

} // verus!
