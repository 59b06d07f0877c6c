//! What endpoints, their pools and their circuits do, told by what happens to
//! them.

use super::circuit_breaker::{
    after_failure, after_request, after_success, in_window, new_memory, BreakerMemory,
    CircuitBreakerConfig,
};
use super::endpoint::{
    connection_returned, endpoint_step, health_checked, in_health, in_state, is_new_endpoint,
    takes_connections, EndpointEvent, EndpointState, EndpointView,
};
use super::health::{judged, reason_of, CheckOutcome, HealthState};
use super::mock::{mock_answered, mock_id, new_mock, MockView};
use super::pool::{pool_step, released, warm_step, PoolAction, PoolEvent, PoolView, WarmEvent};
use super::{last_named, total_active};
use crate::config::types::{
    ClusterConfig, EndpointConfig, HealthCheckConfig, MockResponse, PoolConfig,
};
use crate::pdu::status_number;
use crate::text::hex_digits;
use crate::time::{elapsed_nanos, Instant};
use vstd::prelude::*;

verus! {

/// A closed circuit counts its failures: those within the window and the new
/// one. With as many as its threshold it opens, and the moment is noted.
pub proof fn failures_open_a_circuit(
    m: BreakerMemory,
    config: CircuitBreakerConfig,
    now: Instant,
)
    requires
        m.state is Closed,
        m.open_count < u64::MAX,
        forall|i: int|
            0 <= i < m.failures.len() ==> elapsed_nanos(#[trigger] m.failures[i], now)
                < config.window_size@,
    ensures
        ({
            let after = after_failure(m, config, now);
            &&& after.failures == m.failures.push(now)
            &&& after.state is Open <==> m.failures.len() + 1 >= config.failure_threshold
            &&& after.state is Closed <==> m.failures.len() + 1 < config.failure_threshold
            &&& after.state is Open ==> after.opened_at == Some(now) && after.open_count
                == m.open_count + 1
            &&& after.state is Closed ==> after.opened_at == m.opened_at && after.open_count
                == m.open_count
        }),
{
    all_in_window(m.failures, config.window_size@, now);
}

proof fn all_in_window(failures: Seq<Instant>, window: nat, now: Instant)
    requires
        forall|i: int|
            0 <= i < failures.len() ==> elapsed_nanos(#[trigger] failures[i], now) < window,
    ensures
        in_window(failures, window, now) == failures,
    decreases failures.len(),
{
    if failures.len() > 0 {
        let front = failures.drop_last();
        assert forall|i: int| 0 <= i < front.len() implies elapsed_nanos(
            #[trigger] front[i],
            now,
        ) < window by {
            assert(front[i] == failures[i]);
        }
        all_in_window(front, window, now);
        assert(elapsed_nanos(failures[failures.len() - 1], now) < window);
        assert(front.push(failures.last()) =~= failures);
    } else {
        assert(failures =~= seq![]);
    }
}

/// What a circuit lets through: everything while it is closed or half-open, and
/// nothing while it is open until its time is over; then it is half-open.
pub proof fn circuits_let_through(m: BreakerMemory, config: CircuitBreakerConfig, now: Instant)
    ensures
        !(m.state is Open) ==> after_request(m, config, now) == (m, true),
        m.state is Open && m.opened_at is Some && elapsed_nanos(m.opened_at->0, now)
            < config.open_timeout@ ==> after_request(m, config, now) == (m, false),
        m.state is Open && m.opened_at is Some && elapsed_nanos(m.opened_at->0, now)
            >= config.open_timeout@ ==> after_request(m, config, now).1 && after_request(
            m,
            config,
            now,
        ).0.state is HalfOpen && after_request(m, config, now).0.successes == 0,
{
}

/// A success clears the failures of a closed circuit, counts towards closing a
/// half-open one, and says nothing of an open one.
pub proof fn successes_close_a_circuit(m: BreakerMemory, config: CircuitBreakerConfig)
    requires
        m.successes < u32::MAX,
    ensures
        m.state is Closed ==> after_success(m, config).state is Closed && after_success(
            m,
            config,
        ).failures.len() == 0,
        m.state is HalfOpen && m.successes + 1 < config.success_threshold ==> after_success(
            m,
            config,
        ).state is HalfOpen && after_success(m, config).successes == m.successes + 1,
        m.state is HalfOpen && m.successes + 1 >= config.success_threshold ==> after_success(
            m,
            config,
        ).state is Closed && after_success(m, config).failures.len() == 0 && after_success(
            m,
            config,
        ).opened_at is None && after_success(m, config).successes == 0,
        m.state is Open ==> after_success(m, config) == m,
        after_success(m, config).open_count == m.open_count,
{
}

/// A failure opens a half-open circuit again, and says nothing of an open one.
/// A new circuit is closed and has seen nothing.
pub proof fn failures_reopen_a_circuit(
    m: BreakerMemory,
    config: CircuitBreakerConfig,
    now: Instant,
)
    requires
        m.open_count < u64::MAX,
    ensures
        m.state is HalfOpen ==> after_failure(m, config, now).state is Open && after_failure(
            m,
            config,
            now,
        ).opened_at == Some(now) && after_failure(m, config, now).open_count == m.open_count + 1,
        m.state is Open ==> after_failure(m, config, now) == m,
        new_memory().state is Closed,
        new_memory().failures.len() == 0,
        new_memory().open_count == 0,
        new_memory().opened_at is None,
{
}

/// A pool hands out its oldest idle connection, makes a new one where it has
/// none, and lets wait where all permits are taken.
pub proof fn pools_hand_out_connections(p: PoolView)
    ensures
        ({
            let (after, action) = pool_step(p, PoolEvent::Asked);
            &&& p.available == 0 ==> action is WaitForPermit && after == p
            &&& p.available > 0 && p.idle.len() > 0 ==> {
                &&& action == PoolAction::HandOut(p.idle[0])
                &&& after.idle == p.idle.skip(1)
                &&& after.in_use == p.in_use + 1
                &&& after.available == p.available - 1
                &&& after.created == p.created
            }
            &&& p.available > 0 && p.idle.len() == 0 ==> {
                &&& action is Connect
                &&& after.connecting == p.connecting + 1
                &&& after.available == p.available - 1
                &&& after.in_use == p.in_use
                &&& after.idle == p.idle
            }
        }),
        pool_step(p, PoolEvent::NoPermit) == (p, PoolAction::GiveUp),
{
    if p.idle.len() > 0 {
        assert(p.idle.drop_first() =~= p.idle.skip(1));
    }
}

/// A connection that was made is handed out, and one that could not be made
/// gives its permit back. One that is given back leaves its permit to the next.
pub proof fn pools_make_connections(p: PoolView, client: u64)
    requires
        p.connecting > 0,
        p.created < usize::MAX,
    ensures
        ({
            let (after, action) = pool_step(p, PoolEvent::Connected(client));
            &&& action == PoolAction::HandOut(client)
            &&& after.in_use == p.in_use + 1
            &&& after.connecting == p.connecting - 1
            &&& after.available == p.available
            &&& after.created == p.created + 1
        }),
        ({
            let (after, action) = pool_step(p, PoolEvent::ConnectFailed);
            &&& action is GiveUp
            &&& after.in_use == p.in_use
            &&& after.connecting == p.connecting - 1
            &&& after.available == p.available + 1
            &&& after.created == p.created
        }),
        p.in_use > 0 ==> released(p).in_use == p.in_use - 1 && released(p).available == p.available
            + 1,
{
}

/// Warming makes as many connections as a pool has at least, keeps each one
/// idle, and stops at the first that cannot be made.
pub proof fn warming_makes_the_least_connections(p: PoolView, client: u64)
    ensures
        warm_step(p, WarmEvent::Start).0.warming == p.min,
        warm_step(p, WarmEvent::Start).1 <==> p.min > 0,
        warm_step(p, WarmEvent::Start).0.idle == p.idle,
        p.warming > 0 && p.created < usize::MAX ==> {
            let (after, more) = warm_step(p, WarmEvent::Connected(client));
            &&& after.idle == p.idle.push(client)
            &&& after.warming == p.warming - 1
            &&& after.created == p.created + 1
            &&& more <==> p.warming > 1
        },
        !warm_step(p, WarmEvent::ConnectFailed).1,
        warm_step(p, WarmEvent::ConnectFailed).0.warming == 0,
        warm_step(p, WarmEvent::ConnectFailed).0.idle == p.idle,
{
}

/// An endpoint takes connections while its checks find it healthy and its
/// circuit lets requests through, and is in health while the circuit is closed.
pub proof fn endpoints_take_connections(e: EndpointView, now: Instant)
    ensures
        !e.healthy ==> !takes_connections(e, now) && !in_health(e),
        e.healthy && (e.breaker.state is Closed || e.breaker.state is HalfOpen)
            ==> takes_connections(e, now),
        in_health(e) <==> e.healthy && e.breaker.state is Closed,
{
}

/// A connection that an endpoint hands out counts as active and as a request;
/// one that it cannot get is a failure of its circuit.
pub proof fn endpoints_count_connections(e: EndpointView, event: PoolEvent, now: Instant)
    requires
        e.active < usize::MAX,
        e.total < usize::MAX,
    ensures
        ({
            let (after, action) = endpoint_step(e, EndpointEvent::Pool(event), now);
            &&& after.pool == pool_step(e.pool, event).0
            &&& action == pool_step(e.pool, event).1
            &&& action is HandOut ==> after.active == e.active + 1 && after.total == e.total + 1
                && after.breaker == e.breaker
            &&& !(action is HandOut) ==> after.active == e.active && after.total == e.total
            &&& action is GiveUp ==> after.breaker == after_failure(
                e.breaker,
                e.breaker_config,
                now,
            )
            &&& after.state == e.state && after.healthy == e.healthy
        }),
{
}

/// A connection that comes back is no longer active, and tells the circuit
/// whether it served.
pub proof fn returned_connections_tell_the_circuit(e: EndpointView, now: Instant)
    requires
        e.active > 0,
    ensures
        connection_returned(e, true, now).active == e.active - 1,
        connection_returned(e, false, now).active == e.active - 1,
        connection_returned(e, true, now).breaker == after_success(e.breaker, e.breaker_config),
        connection_returned(e, false, now).breaker == after_failure(
            e.breaker,
            e.breaker_config,
            now,
        ),
        connection_returned(e, false, now).state == e.state,
{
}

/// Checks that pass count up towards health and clear those that failed, and
/// the other way round; at its threshold each run decides.
pub proof fn checks_decide_on_health(e: EndpointView)
    requires
        e.failures < u32::MAX,
        e.successes < u32::MAX,
        e.healthy == (e.state is Healthy),
    ensures
        ({
            let after = health_checked(e, true);
            &&& after.failures == 0
            &&& after.successes == e.successes + 1
            &&& e.successes + 1 >= e.health_config.healthy_threshold ==> after.state is Healthy
                && after.healthy
            &&& e.successes + 1 < e.health_config.healthy_threshold ==> after.state == e.state
                && after.healthy == e.healthy
        }),
        ({
            let after = health_checked(e, false);
            &&& after.successes == 0
            &&& after.failures == e.failures + 1
            &&& e.failures + 1 >= e.health_config.unhealthy_threshold ==> after.state is Unhealthy
                && !after.healthy
            &&& e.failures + 1 < e.health_config.unhealthy_threshold ==> after.state == e.state
                && after.healthy == e.healthy
        }),
        in_state(e, EndpointState::Draining).state is Draining,
        !in_state(e, EndpointState::Draining).healthy,
{
}

/// A check passes exactly when the connection was made in time.
pub proof fn checks_pass_in_time(outcome: CheckOutcome)
    ensures
        judged(outcome) is None <==> outcome is Passed,
        outcome matches CheckOutcome::Failed(message) ==> judged(outcome) == Some(message@),
        outcome is TimedOut ==> judged(outcome) == Some("timeout"@),
{
}

/// A new endpoint is that of its configuration, healthy and unused.
pub proof fn new_endpoints_are_as_configured(
    e: EndpointView,
    cluster: Seq<char>,
    index: nat,
    config: EndpointConfig,
    pool_config: PoolConfig,
    health_config: HealthCheckConfig,
)
    requires
        is_new_endpoint(e, cluster, index, config, pool_config, health_config),
    ensures
        e.address == config.address@,
        e.system_id == config.system_id@,
        e.password == config.password@,
        e.system_type == config.system_type@,
        e.cluster == cluster && e.index == index,
        e.weight == config.weight,
        e.healthy && e.state is Healthy,
        e.active == 0 && e.total == 0,
        e.failures == 0 && e.successes == 0,
        e.health_config == health_config,
        e.pool.address == config.address@,
        e.pool.system_id == config.system_id@,
        e.pool.password == config.password@,
        e.pool.min == pool_config.min_connections,
        e.pool.max == pool_config.max_connections,
        e.pool.available == pool_config.max_connections,
        e.pool.in_use == 0,
        e.pool.idle.len() == 0,
        e.breaker_config.failure_threshold == 5,
        e.breaker_config.success_threshold == 2,
        e.breaker_config.open_timeout@ == 30 * 1_000_000_000,
        e.breaker_config.window_size@ == 60 * 1_000_000_000,
        e.breaker == new_memory(),
{
}

/// The connections of a cluster are those of all its endpoints.
pub proof fn clusters_count_all_connections(endpoints: Seq<EndpointView>, e: EndpointView)
    ensures
        total_active(Seq::empty()) == 0,
        total_active(endpoints.push(e)) == total_active(endpoints) + e.active,
{
    assert(endpoints.push(e).drop_last() =~= endpoints);
}

/// Of clusters with one name the last one configured counts.
pub proof fn the_last_of_a_name_counts(configs: Seq<ClusterConfig>, name: Seq<char>, i: int)
    requires
        0 <= i < configs.len(),
        configs[i].name@ == name,
        forall|j: int| i < j < configs.len() ==> (#[trigger] configs[j]).name@ != name,
    ensures
        last_named(configs, name) == Some(i),
    decreases configs.len(),
{
    if i < configs.len() - 1 {
        assert(configs[configs.len() - 1].name@ != name);
        let front = configs.drop_last();
        assert forall|j: int| i < j < front.len() implies (#[trigger] front[j]).name@ != name by {
            assert(front[j] == configs[j]);
        }
        the_last_of_a_name_counts(front, name, i);
    }
}

/// A mock answers as it is told: always well, always with its error, or with an
/// error for the first messages of every hundred. Good answers have numbers
/// that count up, under which the message is known.
pub proof fn mocks_answer_as_told(m: MockView)
    requires
        m.next < u64::MAX,
        m.successes < u64::MAX,
        m.errors < u64::MAX,
    ensures
        ({
            let (after, answer) = mock_answered(m);
            &&& m.response is Success ==> answer is Success
            &&& m.response matches MockResponse::Error { code } ==> answer is Error
                && status_number(answer->Error_0) == code
            &&& m.response matches MockResponse::Random { error_percent } ==> (answer is Error
                <==> m.next % 100 < error_percent)
            &&& m.response is Random && answer is Error ==> answer->Error_0 is SystemError
            &&& answer is Success ==> answer->Success_0 == mock_id(m.next) && after.next == m.next
                + 1 && after.successes == m.successes + 1 && after.errors == m.errors
            &&& answer is Error ==> after.next == m.next && after.errors == m.errors + 1
                && after.successes == m.successes
            &&& "MOCK"@.is_prefix_of(mock_id(m.next))
        }),
{
    let id = mock_id(m.next);
    assert("MOCK"@ =~= id.subrange(0, "MOCK"@.len() as int));
}

/// A new mock has answered nothing yet, and its first answer is the first.
pub proof fn new_mocks_have_answered_nothing(response: MockResponse, latency: nat)
    ensures
        new_mock(response, latency).response == response,
        new_mock(response, latency).latency == latency,
        new_mock(response, latency).next == 1,
        new_mock(response, latency).requests == 0,
        new_mock(response, latency).successes == 0,
        new_mock(response, latency).errors == 0,
{
}

/// A state of health tells the reason where something is wrong, and only there.
pub proof fn reasons_are_told(state: HealthState)
    ensures
        state is Healthy <==> reason_of(state) is None,
        state matches HealthState::Unhealthy(reason) ==> reason_of(state) == Some(reason@),
{
}

/// Counters of answers and of connections go up by one, and down by one.
pub proof fn counters_go_by_one(n: u64, m: u32, k: nat)
    ensures
        n < u64::MAX ==> crate::cluster::mock::wrap_up(n) == n + 1,
        crate::cluster::mock::wrap_up(u64::MAX) == 0,
        k < usize::MAX ==> crate::cluster::pool::wrap_up(k) == k + 1,
        k > 0 ==> crate::cluster::endpoint::wrap_down(k) == k - 1,
        m < u32::MAX ==> crate::cluster::health::count_up(m) == m + 1,
        m < u32::MAX ==> crate::cluster::circuit_breaker::count_up(m) == m + 1,
{
}

/// The ID that a mock gives is its name and the number of the answer in sixteen
/// hexadecimal digits, so that all IDs have one length.
pub proof fn mock_ids_have_one_length(n: u64)
    ensures
        mock_id(n).len() == 20,
        mock_id(n) == "MOCK"@ + hex_digits(n as nat, 16),
{
    reveal_strlit("MOCK");
    crate::laws::hexadecimal_digits_count_by_sixteen(n as nat, 16);
}

} // verus!
