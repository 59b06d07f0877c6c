use smppd::cluster::circuit_breaker::{CircuitBreaker, CircuitBreakerConfig, CircuitState};
use smppd::cluster::endpoint::{Endpoint, EndpointEvent, EndpointState};
use smppd::cluster::health::{CheckOutcome, HealthChecker, HealthState};
use smppd::cluster::lb::{
    hash_text, Balancer, ConsistentHash, Created, LeastConnections, LoadBalancer,
    LoadBalancerFactory, LoadBalancerRegistry, PowerOfTwoChoices, Random, RoundRobin, Weighted,
    WeightedLeastConn,
};
use smppd::cluster::mock::MockSmsc;
use smppd::cluster::pool::{ConnectionPool, PoolAction, PoolEvent, PooledConnection, WarmEvent};
use smppd::cluster::{Cluster, Clusters};
use smppd::config::types::{
    ClusterConfig, EndpointConfig, HealthCheckConfig, LoadBalancer as LbType, MockConfig,
    MockResponse, PoolConfig,
};
use smppd::pdu::Status;
use smppd::time::{Clock, Duration, Instant};

fn endpoint_config(address: &str, weight: u32) -> EndpointConfig {
    EndpointConfig {
        address: address.to_string(),
        system_id: "test".to_string(),
        password: "test".to_string(),
        system_type: String::new(),
        weight,
        tls: None,
    }
}

fn endpoint(address: &str) -> Endpoint {
    Endpoint::new(
        "c",
        0,
        &endpoint_config(address, 1),
        &PoolConfig::default(),
        &HealthCheckConfig::default(),
    )
}

fn at(secs: u128) -> Instant {
    Instant { nanos: secs * 1_000_000_000 }
}

/// Endpoints with some connections in use each.
fn loaded(loads: &[usize]) -> Vec<Endpoint> {
    let mut endpoints = Vec::new();
    for (i, n) in loads.iter().enumerate() {
        let mut e = endpoint(&format!("smsc{}:2775", i));
        for _ in 0..*n {
            assert_eq!(e.get_connection_at(EndpointEvent::Asked, &at(0)), PoolAction::Connect);
            assert!(matches!(
                e.get_connection_at(EndpointEvent::Pool(PoolEvent::Connected(1)), &at(0)),
                PoolAction::HandOut(1)
            ));
        }
        assert_eq!(e.active_connections(), *n);
        endpoints.push(e);
    }
    endpoints
}

// Circuit breaker

#[test]
fn test_circuit_starts_closed() {
    let mut cb = CircuitBreaker::new();
    assert_eq!(cb.state(), CircuitState::Closed);
    assert!(cb.allow_request());
}

#[test]
fn test_circuit_opens_after_failures() {
    let config = CircuitBreakerConfig { failure_threshold: 3, ..CircuitBreakerConfig::default() };
    let mut cb = CircuitBreaker::with_config(config);

    cb.record_failure();
    assert_eq!(cb.state(), CircuitState::Closed);
    cb.record_failure();
    assert_eq!(cb.state(), CircuitState::Closed);
    cb.record_failure();
    assert_eq!(cb.state(), CircuitState::Open);
    assert!(!cb.allow_request());
}

#[test]
fn test_success_resets_failures() {
    let config = CircuitBreakerConfig { failure_threshold: 3, ..CircuitBreakerConfig::default() };
    let mut cb = CircuitBreaker::with_config(config);

    cb.record_failure();
    cb.record_failure();
    cb.record_success();

    assert_eq!(cb.failure_count(), 0);
    assert_eq!(cb.state(), CircuitState::Closed);
}

#[test]
fn failures_are_counted_anew_after_a_success() {
    let config = CircuitBreakerConfig { failure_threshold: 3, ..CircuitBreakerConfig::default() };
    let mut cb = CircuitBreaker::with_config(config);

    cb.record_failure();
    cb.record_failure();
    cb.record_success();
    cb.record_failure();
    cb.record_failure();
    assert_eq!(cb.failure_count(), 2);
    assert_eq!(cb.state(), CircuitState::Closed);
    cb.record_failure();
    assert_eq!(cb.state(), CircuitState::Open);
}

#[test]
fn only_failures_within_the_window_count() {
    let config = CircuitBreakerConfig {
        failure_threshold: 3,
        window_size: Duration::from_secs(10),
        ..CircuitBreakerConfig::default()
    };
    let mut cb = CircuitBreaker::with_config(config);
    cb.record_failure_at(&at(0));
    cb.record_failure_at(&at(9));
    assert_eq!(cb.failure_count(), 2);
    cb.record_failure_at(&at(10));
    assert_eq!(cb.failure_count(), 2);
    assert!(cb.is_closed());
    cb.record_failure_at(&at(100));
    assert_eq!(cb.failure_count(), 1);
    cb.record_failure_at(&at(101));
    cb.record_failure_at(&at(102));
    assert!(cb.is_open());
}

#[test]
fn circuit_becomes_half_open_and_closes() {
    let mut cb = CircuitBreaker::new();
    for _ in 0..5 {
        cb.record_failure_at(&at(10));
    }
    assert!(cb.is_open());
    assert_eq!(cb.open_count(), 1);
    assert_eq!(cb.failure_count(), 5);
    assert!(!cb.allow_request_at(&at(39)));
    assert!(cb.is_open());
    assert!(cb.allow_request_at(&at(40)));
    assert_eq!(cb.state(), CircuitState::HalfOpen);
    cb.record_success();
    assert_eq!(cb.state(), CircuitState::HalfOpen);
    cb.record_success();
    assert!(cb.is_closed());
    assert_eq!(cb.failure_count(), 0);
}

#[test]
fn half_open_circuit_opens_again() {
    let mut cb = CircuitBreaker::default();
    for _ in 0..5 {
        cb.record_failure_at(&at(0));
    }
    assert!(cb.allow_request_at(&at(30)));
    cb.record_failure_at(&at(31));
    assert!(cb.is_open());
    assert_eq!(cb.open_count(), 2);
    assert!(!cb.allow_request_at(&at(60)));
    assert!(cb.allow_request_at(&at(61)));
}

#[test]
fn a_zero_threshold_opens_at_the_first_failure() {
    let config = CircuitBreakerConfig { failure_threshold: 0, ..CircuitBreakerConfig::default() };
    let mut cb = CircuitBreaker::with_config(config);
    cb.record_failure_at(&at(0));
    assert!(cb.is_open());
}

// Health

#[test]
fn health_counts_in_a_row() {
    let config = HealthCheckConfig::default();
    let mut h = HealthChecker::new(&config);
    assert!(!h.record_failure());
    assert!(!h.record_failure());
    assert!(h.record_failure());
    assert_eq!(h.failure_count(), 3);
    assert!(!h.record_success());
    assert_eq!(h.failure_count(), 0);
    assert_eq!(h.success_count(), 1);
    assert!(h.record_success());
    assert_eq!(h.interval().as_secs(), config.interval.as_secs());
    assert_eq!(h.timeout().as_secs(), config.timeout.as_secs());
}

#[test]
fn trial_connections_are_judged() {
    let h = HealthChecker::new(&HealthCheckConfig::default());
    assert!(matches!(h.check(CheckOutcome::Passed), HealthState::Healthy));
    match h.check(CheckOutcome::Failed("refused".to_string())) {
        HealthState::Unhealthy(reason) => assert_eq!(reason, "refused"),
        HealthState::Healthy => panic!("expected unhealthy"),
    }
    match h.check(CheckOutcome::TimedOut) {
        HealthState::Unhealthy(reason) => assert_eq!(reason, "timeout"),
        HealthState::Healthy => panic!("expected unhealthy"),
    }
}

// Pool

#[test]
fn pool_hands_out_no_more_than_its_maximum() {
    let config = PoolConfig {
        min_connections: 0,
        max_connections: 2,
        acquire_timeout: Duration::from_secs(5),
    };
    let mut pool = ConnectionPool::new("c", "a:1", "id", "pw", &config);
    assert_eq!(pool.get(PoolEvent::Asked), PoolAction::Connect);
    assert_eq!(pool.get(PoolEvent::Connected(7)), PoolAction::HandOut(7));
    assert_eq!(pool.get(PoolEvent::Asked), PoolAction::Connect);
    assert_eq!(pool.get(PoolEvent::ConnectFailed), PoolAction::GiveUp);
    assert_eq!(pool.get(PoolEvent::Asked), PoolAction::Connect);
    assert_eq!(pool.get(PoolEvent::Connected(8)), PoolAction::HandOut(8));
    assert_eq!(pool.get(PoolEvent::Asked), PoolAction::WaitForPermit);
    assert_eq!(pool.get(PoolEvent::NoPermit), PoolAction::GiveUp);
    assert_eq!(pool.in_use(), 2);
    assert_eq!(pool.size(), 2);
    assert_eq!(pool.total_created(), 2);
    pool.release();
    assert_eq!(pool.in_use(), 1);
    assert_eq!(pool.get(PoolEvent::Asked), PoolAction::Connect);
    assert_eq!(pool.get(PoolEvent::Connected(9)), PoolAction::HandOut(9));
    assert_eq!(pool.get(PoolEvent::Connected(10)), PoolAction::GiveUp);
    assert_eq!(pool.acquire_timeout().as_secs(), 5);
}

#[test]
fn warmed_connections_are_reused_in_order() {
    let config = PoolConfig {
        min_connections: 2,
        max_connections: 4,
        acquire_timeout: Duration::from_secs(5),
    };
    let mut pool = ConnectionPool::new("c", "a:1", "id", "pw", &config);
    assert!(pool.warm(WarmEvent::Start));
    assert!(pool.warm(WarmEvent::Connected(1)));
    assert!(!pool.warm(WarmEvent::Connected(2)));
    assert!(!pool.warm(WarmEvent::Connected(3)));
    assert_eq!(pool.idle_count(), 2);
    assert_eq!(pool.get(PoolEvent::Asked), PoolAction::HandOut(1));
    assert_eq!(pool.get(PoolEvent::Asked), PoolAction::HandOut(2));
    assert_eq!(pool.get(PoolEvent::Asked), PoolAction::Connect);
    assert!(pool.warm(WarmEvent::Start));
    assert!(!pool.warm(WarmEvent::ConnectFailed));
}

#[test]
fn held_connections_know_how_long() {
    let c = PooledConnection::new(3, &at(1));
    assert_eq!(c.client(), 3);
    assert_eq!(c.held_duration_at(&at(4)).as_secs(), 3);
    let clock = Clock::new();
    let fresh = PooledConnection::new(1, &clock.now());
    assert!(fresh.held_duration(&clock).as_secs() < 10);
}

// Endpoint

#[test]
fn endpoint_follows_its_health_checks() {
    let mut e = endpoint("smsc1:2775");
    assert!(e.is_healthy());
    assert_eq!(e.state(), EndpointState::Healthy);
    let bad = HealthState::Unhealthy("down".to_string());
    assert!(!e.perform_health_check(&bad));
    assert!(!e.perform_health_check(&bad));
    assert!(e.perform_health_check(&bad));
    assert_eq!(e.state(), EndpointState::Unhealthy);
    assert!(!e.is_healthy());
    assert_eq!(e.get_connection(EndpointEvent::Asked), PoolAction::GiveUp);
    assert!(!e.perform_health_check(&HealthState::Healthy));
    assert!(e.perform_health_check(&HealthState::Healthy));
    assert!(e.is_healthy());
    assert!(e.set_state(EndpointState::Draining));
    assert!(!e.set_state(EndpointState::Draining));
    assert!(!e.is_healthy());
}

#[test]
fn endpoint_counts_connections_and_opens_its_circuit() {
    let mut e = endpoint("smsc1:2775");
    assert_eq!(e.address(), "smsc1:2775");
    assert_eq!(e.weight(), 1);
    assert_eq!(e.get_connection_at(EndpointEvent::Asked, &at(0)), PoolAction::Connect);
    assert_eq!(
        e.get_connection_at(EndpointEvent::Pool(PoolEvent::Connected(4)), &at(0)),
        PoolAction::HandOut(4)
    );
    assert_eq!(e.active_connections(), 1);
    assert_eq!(e.total_requests(), 1);
    e.return_connection(true);
    e.release();
    assert_eq!(e.active_connections(), 0);
    for _ in 0..5 {
        assert_eq!(e.get_connection_at(EndpointEvent::Asked, &at(0)), PoolAction::Connect);
        assert_eq!(
            e.get_connection_at(EndpointEvent::Pool(PoolEvent::ConnectFailed), &at(0)),
            PoolAction::GiveUp
        );
    }
    assert!(!e.is_healthy());
    assert!(!e.takes_connections_at(&at(29)));
    assert_eq!(e.get_connection_at(EndpointEvent::Asked, &at(29)), PoolAction::GiveUp);
}

#[test]
fn endpoint_is_tried_again_when_its_circuit_has_waited() {
    let mut e = endpoint("smsc1:2775");
    for _ in 0..5 {
        e.return_connection_at(false, &at(0));
    }
    assert!(!e.takes_connections_at(&at(29)));
    assert!(e.takes_connections_at(&at(30)));
    assert!(!e.is_healthy());
    assert_eq!(e.get_connection_at(EndpointEvent::Asked, &at(30)), PoolAction::Connect);
    assert_eq!(
        e.get_connection_at(EndpointEvent::Pool(PoolEvent::ConnectFailed), &at(31)),
        PoolAction::GiveUp
    );
    assert!(!e.takes_connections_at(&at(60)));
    assert!(e.takes_connections_at(&at(61)));
    assert_eq!(e.get_connection_at(EndpointEvent::Asked, &at(61)), PoolAction::Connect);
    e.return_connection_at(true, &at(61));
    e.return_connection_at(true, &at(61));
    assert!(e.is_healthy());
}

#[test]
fn returned_connections_reach_the_circuit() {
    let mut e = endpoint("smsc1:2775");
    for _ in 0..5 {
        e.return_connection_at(false, &at(0));
    }
    assert!(!e.is_healthy());
}

// Load balancers

#[test]
fn test_registry_has_defaults() {
    let registry = LoadBalancerRegistry::new();
    let available = registry.available();
    assert!(available.contains(&"round_robin"));
    assert!(available.contains(&"least_conn"));
    assert!(available.contains(&"random"));
    assert!(available.contains(&"weighted"));
    assert!(available.contains(&"p2c"));
    assert!(available.contains(&"consistent_hash"));
    assert!(available.contains(&"weighted_least_conn"));
}

#[test]
fn test_registry_create_round_robin() {
    let registry = LoadBalancerRegistry::new();
    let lb = registry.create("round_robin", &vec![]);
    assert!(lb.is_some());
    assert_eq!(lb.unwrap().name(), "round_robin");
}

#[test]
fn test_registry_create_least_conn() {
    let registry = LoadBalancerRegistry::new();
    let lb = registry.create("least_conn", &vec![]);
    assert!(lb.is_some());
    assert_eq!(lb.unwrap().name(), "least_conn");
}

#[test]
fn test_registry_create_random() {
    let registry = LoadBalancerRegistry::new();
    let lb = registry.create("random", &vec![]);
    assert!(lb.is_some());
    assert_eq!(lb.unwrap().name(), "random");
}

#[test]
fn test_registry_create_p2c() {
    let registry = LoadBalancerRegistry::new();
    let lb = registry.create("p2c", &vec![]);
    assert!(lb.is_some());
    assert_eq!(lb.unwrap().name(), "p2c");
}

#[test]
fn test_registry_create_weighted() {
    let registry = LoadBalancerRegistry::new();
    let endpoints = vec![endpoint_config("smsc1:2775", 2), endpoint_config("smsc2:2775", 1)];
    let lb = registry.create("weighted", &endpoints);
    assert!(lb.is_some());
    assert_eq!(lb.unwrap().name(), "weighted");
}

#[test]
fn test_registry_create_unknown() {
    let registry = LoadBalancerRegistry::new();
    let lb = registry.create("unknown_lb", &vec![]);
    assert!(lb.is_none());
}

struct CustomLb;

impl LoadBalancer for CustomLb {
    fn name(&self) -> &'static str {
        "custom"
    }

    fn select(&mut self, endpoints: &Vec<&Endpoint>) -> Option<usize> {
        if endpoints.is_empty() {
            None
        } else {
            Some(0)
        }
    }
}

struct CustomFactory;

impl LoadBalancerFactory for CustomFactory {
    type Made = CustomLb;

    fn make(&self, _endpoints: &Vec<EndpointConfig>) -> CustomLb {
        CustomLb
    }
}

#[test]
fn test_registry_custom_lb() {
    let mut registry = LoadBalancerRegistry::with_built_in();
    registry.register("custom", CustomFactory);

    let lb = registry.create("custom", &vec![]);
    assert!(lb.is_some());
    assert_eq!(lb.unwrap().name(), "custom");
    assert!(matches!(registry.create("p2c", &vec![]), Some(Created::BuiltIn(Balancer::P2c(_)))));
}

#[test]
fn test_round_robin_name() {
    let lb = RoundRobin::new();
    assert_eq!(LoadBalancer::name(&lb), "round_robin");
}

#[test]
fn test_least_connections_name() {
    let lb = LeastConnections::new();
    assert_eq!(LoadBalancer::name(&lb), "least_conn");
}

#[test]
fn test_random_name() {
    let lb = Random::new();
    assert_eq!(LoadBalancer::name(&lb), "random");
}

#[test]
fn test_p2c_name() {
    let lb = PowerOfTwoChoices::new();
    assert_eq!(LoadBalancer::name(&lb), "p2c");
}

#[test]
fn test_weighted_name() {
    let lb = Weighted::new(&vec![]);
    assert_eq!(LoadBalancer::name(&lb), "weighted");
}

#[test]
fn test_round_robin_default() {
    let lb: RoundRobin = Default::default();
    assert_eq!(lb.name(), "round_robin");
}

#[test]
fn test_least_connections_default() {
    let lb: LeastConnections = Default::default();
    assert_eq!(lb.name(), "least_conn");
}

#[test]
fn test_random_default() {
    let lb: Random = Default::default();
    assert_eq!(lb.name(), "random");
}

#[test]
fn test_p2c_default() {
    let lb: PowerOfTwoChoices = Default::default();
    assert_eq!(lb.name(), "p2c");
}

#[test]
fn test_registry_default() {
    let registry: LoadBalancerRegistry<smppd::cluster::lb::RoundRobinFactory> = Default::default();
    assert!(registry.available().len() >= 5);
}

#[test]
fn test_on_success_noop() {
    let mut lb = RoundRobin::new();
    let e = endpoint("smsc1:2775");
    lb.on_success(&e);
    lb.on_failure(&e);
    assert_eq!(lb.select(&vec![&e]), Some(0));
}

#[test]
fn test_tick_noop() {
    let mut lb = RoundRobin::new();
    lb.tick();
}

#[test]
fn round_robin_takes_turns() {
    let endpoints = loaded(&[0, 0, 0]);
    let refs: Vec<&Endpoint> = endpoints.iter().collect();
    let mut lb = RoundRobin::new();
    let picks: Vec<Option<usize>> = (0..6).map(|_| lb.select(&refs)).collect();
    assert_eq!(picks, vec![Some(0), Some(1), Some(2), Some(0), Some(1), Some(2)]);
    assert_eq!(lb.select(&vec![]), None);
}

#[test]
fn weighted_picks_by_weight() {
    let endpoints = loaded(&[0, 0]);
    let refs: Vec<&Endpoint> = endpoints.iter().collect();
    let mut lb = Weighted::new(&vec![endpoint_config("a:1", 2), endpoint_config("b:1", 1)]);
    let picks: Vec<Option<usize>> = (0..6).map(|_| lb.select(&refs)).collect();
    assert_eq!(picks, vec![Some(0), Some(0), Some(1), Some(0), Some(0), Some(1)]);
    let mut none = Weighted::new(&vec![endpoint_config("a:1", 0)]);
    assert_eq!(none.select(&refs), None);
    // One endpoint left of three: targets behind its share fall back to it.
    let mut few = Weighted::new(&vec![
        endpoint_config("a:1", 1),
        endpoint_config("b:1", 1),
        endpoint_config("c:1", 1),
    ]);
    let one: Vec<&Endpoint> = vec![refs[0]];
    assert_eq!((0..3).map(|_| few.select(&one)).collect::<Vec<_>>(), vec![Some(0); 3]);
}

#[test]
fn least_connections_picks_the_first_minimum() {
    let endpoints = loaded(&[3, 1, 2, 1]);
    let refs: Vec<&Endpoint> = endpoints.iter().collect();
    let mut lb = LeastConnections::new();
    assert_eq!(lb.select(&refs), Some(1));
    assert_eq!(lb.select(&vec![]), None);
}

#[test]
fn random_follows_its_sequence() {
    let endpoints = loaded(&[0, 0, 0, 0]);
    let refs: Vec<&Endpoint> = endpoints.iter().collect();
    let mut lb = Random::new();
    let mut s: u64 = 0;
    for _ in 0..20 {
        if s == 0 {
            s = 1;
        }
        s ^= s << 13;
        s ^= s >> 7;
        s ^= s << 17;
        assert_eq!(lb.select(&refs), Some((s % 4) as usize));
    }
}

#[test]
fn two_choices_prefer_fewer_connections() {
    let endpoints = loaded(&[5, 0]);
    let refs: Vec<&Endpoint> = endpoints.iter().collect();
    let mut lb = PowerOfTwoChoices::new();
    for _ in 0..10 {
        assert_eq!(lb.select(&refs), Some(1));
    }
    assert_eq!(lb.select(&vec![refs[0]]), Some(0));
    assert_eq!(lb.select(&vec![]), None);
}

#[test]
fn weighted_least_connections_weighs() {
    let endpoints = loaded(&[4, 3, 9]);
    let refs: Vec<&Endpoint> = endpoints.iter().collect();
    let mut lb = WeightedLeastConn::new(&vec![
        endpoint_config("a:1", 1),
        endpoint_config("b:1", 0),
        endpoint_config("c:1", 10),
    ]);
    assert_eq!(lb.name(), "weighted_least_conn");
    assert_eq!(lb.select(&refs), Some(2));
    let mut plain: WeightedLeastConn = Default::default();
    assert_eq!(plain.select(&refs), Some(1));
}

#[test]
fn hashes_are_fnv() {
    assert_eq!(hash_text(""), 14695981039346656037);
    assert_eq!(hash_text("a"), 0xaf63dc4c8601ec8c);
    assert_eq!(hash_text("foobar"), 0x85944171f73967e8);
}

#[test]
fn keys_stay_with_their_endpoint() {
    let two = vec![endpoint_config("smsc1:2775", 1), endpoint_config("smsc2:2775", 1)];
    let three = vec![
        endpoint_config("smsc1:2775", 1),
        endpoint_config("smsc2:2775", 1),
        endpoint_config("smsc3:2775", 1),
    ];
    let before = ConsistentHash::new(&two, 100);
    let again = ConsistentHash::new(&two, 0);
    let after = ConsistentHash::new(&three, 100);
    let mut moved = 0;
    for i in 0..500 {
        let key = format!("key{}", i * 7919);
        let a = before.select_by_key(&key).unwrap();
        assert_eq!(again.select_by_key(&key), Some(a));
        let b = after.select_by_key(&key).unwrap();
        assert!(b == a || b == 2);
        if b != a {
            moved += 1;
        }
    }
    assert_eq!(moved, 182);
    let empty: ConsistentHash = Default::default();
    assert_eq!(empty.select_by_key("x"), None);
    assert_eq!(empty.name(), "consistent_hash");
}

#[test]
fn consistent_hash_without_a_key_takes_turns() {
    let endpoints = loaded(&[0, 0]);
    let refs: Vec<&Endpoint> = endpoints.iter().collect();
    let mut lb = ConsistentHash::new(&vec![endpoint_config("a:1", 1)], 3);
    assert_eq!(lb.select(&refs), Some(0));
    assert_eq!(lb.select(&refs), Some(1));
    assert_eq!(lb.select(&vec![]), None);
}

// Mock

#[test]
fn test_mock_success() {
    let mut mock = MockSmsc::success();
    let result = mock.submit_sm();
    assert!(result.is_success());
    assert!(result.message_id().unwrap().starts_with("MOCK"));
    assert_eq!(mock.request_count(), 1);
    assert_eq!(mock.success_count(), 1);
}

#[test]
fn test_mock_error() {
    let mut mock = MockSmsc::error(0x08);
    let result = mock.submit_sm();
    assert!(!result.is_success());
    assert_eq!(mock.error_count(), 1);
}

#[test]
fn test_mock_latency() {
    let mut mock = MockSmsc::success().with_latency(Duration::from_millis(10));
    let wait = mock.begin();
    assert!(wait.as_millis() >= 10);
    assert!(mock.answer().is_success());
}

#[test]
fn mock_ids_are_hexadecimal() {
    let mut mock = MockSmsc::success();
    for _ in 0..25 {
        mock.submit_sm();
    }
    let result = mock.submit_sm();
    assert_eq!(result.message_id(), Some("MOCK000000000000001A"));
    assert_eq!(result.status(), Status::Success);
    assert_eq!(MockSmsc::error(9).submit_sm().status(), Status::Code(9));
    assert_eq!(MockSmsc::error(8).submit_sm().status(), Status::SystemError);
    assert_eq!(MockSmsc::error(88).submit_sm().status(), Status::Throttled);
}

#[test]
fn mock_answers_are_counted() {
    let mut mock = MockSmsc::random(2);
    let mut seen = Vec::new();
    for _ in 0..10 {
        if let Some(id) = mock.submit_sm().message_id() {
            assert!(!seen.contains(&id.to_string()));
            seen.push(id.to_string());
        }
    }
    assert_eq!(mock.request_count(), 10);
    assert_eq!(mock.success_count() + mock.error_count(), 10);
    assert_eq!(mock.success_count(), seen.len() as u64);
}

#[test]
fn random_mock_fails_by_percent() {
    let mut mock = MockSmsc::random(2);
    // The counter starts at one, which lies below two percent.
    assert_eq!(mock.submit_sm().status(), Status::SystemError);
    let mut never = MockSmsc::new(&MockConfig {
        response: MockResponse::Random { error_percent: 1 },
        latency: Duration::from_secs(0),
    });
    assert!(never.submit_sm().is_success());
}

// Cluster

fn cluster_config(name: &str, lb: LbType, endpoints: Vec<EndpointConfig>) -> ClusterConfig {
    ClusterConfig {
        name: name.to_string(),
        endpoints,
        load_balancer: lb,
        health_check: HealthCheckConfig::default(),
        pool: PoolConfig::default(),
        mock: None,
    }
}

#[test]
fn cluster_picks_healthy_endpoints_only() {
    let config = cluster_config(
        "c",
        LbType::RoundRobin,
        vec![endpoint_config("a:1", 1), endpoint_config("b:1", 1), endpoint_config("c:1", 1)],
    );
    let mut cluster = Cluster::new(&config);
    assert_eq!(cluster.name(), "c");
    assert_eq!(cluster.endpoint_count(), 3);
    assert!(!cluster.is_mock());
    assert_eq!(cluster.healthy_count(), 3);
    let bad = HealthState::Unhealthy("down".to_string());
    for _ in 0..3 {
        cluster.health_checked(1, &bad);
    }
    assert_eq!(cluster.healthy_count(), 2);
    let picks: Vec<Option<usize>> = (0..4).map(|_| cluster.select_endpoint()).collect();
    assert_eq!(picks, vec![Some(0), Some(2), Some(0), Some(2)]);
    for _ in 0..3 {
        cluster.health_checked(0, &bad);
        cluster.health_checked(2, &bad);
    }
    assert_eq!(cluster.select_endpoint(), None);
}

/// A cluster of three with the weights 1, 10 and 1; the first one is down.
fn without_the_first(lb: LbType) -> Cluster {
    let endpoints =
        vec![endpoint_config("a:1", 1), endpoint_config("b:1", 10), endpoint_config("c:1", 1)];
    let mut cluster = Cluster::new(&cluster_config("c", lb, endpoints));
    let bad = HealthState::Unhealthy("down".to_string());
    for _ in 0..3 {
        cluster.health_checked(0, &bad);
    }
    assert_eq!(cluster.healthy_count(), 2);
    cluster
}

#[test]
fn endpoints_keep_their_weights_when_others_are_down() {
    let mut cluster = without_the_first(LbType::Weighted);
    let picks: Vec<usize> = (0..22).map(|_| cluster.select_endpoint().unwrap()).collect();
    assert_eq!(picks.iter().filter(|p| **p == 1).count(), 20);
    assert_eq!(picks.iter().filter(|p| **p == 2).count(), 2);

    let mut cluster = without_the_first(LbType::WeightedLeastConn);
    for (position, connections) in [(1, 6), (2, 5)] {
        for _ in 0..connections {
            let asked = cluster.get_connection(position, EndpointEvent::Asked);
            assert_eq!(asked, PoolAction::Connect);
            let connected = EndpointEvent::Pool(PoolEvent::Connected(1));
            assert!(matches!(cluster.get_connection(position, connected), PoolAction::HandOut(1)));
        }
    }
    assert_eq!(cluster.select_endpoint(), Some(1));
}

#[test]
fn clusters_try_an_endpoint_again() {
    let config = cluster_config("c", LbType::RoundRobin, vec![endpoint_config("a:1", 1)]);
    let mut cluster = Cluster::new(&config);
    for _ in 0..5 {
        cluster.return_connection(0, false);
    }
    assert_eq!(cluster.healthy_count(), 0);
    assert_eq!(cluster.select_endpoint(), None);
    assert_eq!(cluster.select_endpoint_at(&vec![at(1000)]), Some(0));
}

#[test]
fn cluster_counts_connections() {
    let config = cluster_config("c", LbType::LeastConn, vec![endpoint_config("a:1", 1), endpoint_config("b:1", 1)]);
    let mut cluster = Cluster::new(&config);
    let p = cluster.select_endpoint().unwrap();
    assert_eq!(cluster.get_connection(p, EndpointEvent::Asked), PoolAction::Connect);
    assert_eq!(
        cluster.get_connection(p, EndpointEvent::Pool(PoolEvent::Connected(1))),
        PoolAction::HandOut(1)
    );
    assert_eq!(cluster.active_connections(), 1);
    assert_eq!(cluster.select_endpoint(), Some(1));
    cluster.return_connection(p, true);
    cluster.release(p);
    assert_eq!(cluster.active_connections(), 0);
    assert!(cluster.warm(0, WarmEvent::Start));
    assert_eq!(cluster.endpoints().len(), 2);
}

#[test]
fn clusters_are_found_by_name() {
    let mut mock = cluster_config("m", LbType::Random, vec![]);
    mock.mock =
        Some(MockConfig { response: MockResponse::Success, latency: Duration::from_secs(0) });
    let configs = vec![
        cluster_config("c", LbType::P2c, vec![endpoint_config("a:1", 1)]),
        mock,
        cluster_config("c", LbType::P2c, vec![endpoint_config("a:1", 1), endpoint_config("b:1", 1)]),
    ];
    let mut clusters = Clusters::new(&configs);
    assert_eq!(clusters.len(), 2);
    assert!(!clusters.is_empty());
    assert!(clusters.get("m").unwrap().is_mock());
    assert_eq!(clusters.get("c").unwrap().endpoint_count(), 2);
    assert!(clusters.get("x").is_none());
    let mut names = clusters.names();
    names.sort();
    assert_eq!(names, vec!["c", "m"]);
    let bad = HealthState::Unhealthy("down".to_string());
    for _ in 0..3 {
        clusters.get_mut("c").unwrap().health_checked(0, &bad);
    }
    assert_eq!(clusters.get("c").unwrap().healthy_count(), 1);
    assert!(clusters.get_mut("x").is_none());
}
