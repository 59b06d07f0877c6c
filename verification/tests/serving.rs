use smppd::admin::handlers::{
    health_handler, live_handler, ready_handler, reload_handler, stats_handler,
};
use smppd::admin::server::{AdminState, ReloadOutcome};
use smppd::bootstrap::events::{
    recipients, Event, EventCategory, EventStats, FilteredSubscription, IdSource, MessageId,
    ResponseEnvelope, SessionId,
};
use smppd::bootstrap::server::{
    create_workers, maintenance, route_target, Notice, Server, ServerAction, ServerEvent,
    ServerPhase,
};
use smppd::bootstrap::shutdown::{Shutdown, State};
use smppd::bootstrap::worker::WorkerConfig;
use smppd::cluster::Clusters;
use smppd::config::types::{
    AdminConfig, BindType, ClusterConfig, Config, ConnectionLimits, HealthCheckConfig,
    ListenerConfig, LoadBalancer, MockConfig, MockResponse, PoolConfig, Protocol, RouteConfig,
    RouteMatch, Settings, TelemetryConfig, TlsConfig, TrafficSplit,
};
use smppd::filter::auth::{Credentials, InMemoryCredentialStore};
use smppd::listener::acceptor::{AcceptAction, AcceptEvent, Handshake, Listener, Listeners};
use smppd::listener::connection::{Connection, ConnectionId, ConnectionState};
use smppd::listener::random::RandomSource;
use smppd::listener::registry::{Delivery, SessionRegistry};
use smppd::listener::session::{
    Command, Frame, SessionAction, SessionError, SessionEvent, SessionState, SmppSession,
};
use smppd::net::{IpAddr, SocketAddr};
use smppd::pdu::{BindFields, Pdu, Status, SubmitSm};
use smppd::time::{Duration, Instant};
use std::sync::Arc;

fn at(secs: u128) -> Instant {
    Instant { nanos: secs * 1_000_000_000 }
}

fn peer() -> SocketAddr {
    SocketAddr { ip: IpAddr::V4(0x0a000001), port: 4000 }
}

fn endpoint_up() -> Event {
    Event::EndpointUp { cluster: "test".to_string(), endpoint: "127.0.0.1:2775".to_string() }
}

fn session_bound() -> Event {
    Event::SessionBound {
        session_id: SessionId::new(&mut IdSource::new()),
        listener: "main".to_string(),
        system_id: "client1".to_string(),
        bind_type: "transceiver".to_string(),
    }
}

// Events

#[test]
fn test_event_bus() {
    let waiting = vec![Event::Starting];
    let all = FilteredSubscription { categories: vec![] };
    assert_eq!(all.try_recv(&waiting), Some(0));
    assert_eq!(recipients(&vec![vec![], vec![]], &waiting[0]), vec![0, 1]);
}

#[test]
fn test_event_categories() {
    let cluster_rx = FilteredSubscription { categories: vec![EventCategory::Cluster] };
    let session_rx = FilteredSubscription { categories: vec![EventCategory::Session] };

    let waiting = vec![endpoint_up(), session_bound()];

    let event = &waiting[cluster_rx.try_recv(&waiting).unwrap()];
    assert!(matches!(event, Event::EndpointUp { .. }));

    let event = &waiting[session_rx.try_recv(&waiting).unwrap()];
    assert!(matches!(event, Event::SessionBound { .. }));
}

#[test]
fn test_event_stats() {
    let mut stats = EventStats::default();

    stats.record(&Event::Starting, true);
    stats.record(&Event::Ready, true);
    stats.record(&endpoint_up(), true);

    assert_eq!(stats.published, 3);
    assert_eq!(stats.by_category[EventCategory::Lifecycle.index()], 2);
    assert_eq!(stats.by_category[EventCategory::Cluster.index()], 1);
    assert_eq!(stats.dropped, 0);
    stats.record(&Event::Ready, false);
    assert_eq!(stats.dropped, 1);
}

#[test]
fn test_event_handler() {
    let handlers = vec![vec![EventCategory::Lifecycle]];
    let mut received = Vec::new();
    for event in [Event::Starting, endpoint_up()] {
        for _ in recipients(&handlers, &event) {
            received.push(event.category());
        }
    }
    assert_eq!(received.len(), 1);
    assert_eq!(received[0], EventCategory::Lifecycle);
}

#[test]
fn subscriptions_skip_what_is_not_wanted() {
    let rx = FilteredSubscription { categories: vec![EventCategory::Message] };
    assert_eq!(rx.try_recv(&vec![Event::Starting, endpoint_up()]), None);
    let waiting = vec![Event::Starting, Event::MessageRetryReady { message_id: MessageId(1) }];
    assert_eq!(rx.try_recv(&waiting), Some(1));
    assert!(Event::ShutdownStarted.is_critical());
    assert!(!Event::Ready.is_critical() || Event::Ready.category() == EventCategory::Lifecycle);
}

#[test]
fn session_ids() {
    let mut ids = IdSource::starting_at(5);
    let a = SessionId::new(&mut ids);
    let b = SessionId::new(&mut ids);
    assert!(a != b);
    assert_eq!((a.as_u64(), b.as_u64()), (5, 6));
    assert!(a.to_string().ends_with('5'));
    assert_eq!(IdSource::starting_at(u64::MAX).take(), u64::MAX);
    let mut ids = IdSource::new();
    let numbers: Vec<u64> = (0..100).map(|_| SessionId::new(&mut ids).as_u64()).collect();
    assert_eq!(numbers, (1..=100).collect::<Vec<u64>>());
}

// Shutdown

#[test]
fn test_shutdown_state_machine() {
    let mut shutdown = Shutdown::new(Duration::from_secs(30));

    assert_eq!(shutdown.state(), State::Running);
    assert!(shutdown.is_accepting());

    assert!(shutdown.connection_opened());
    assert_eq!(shutdown.active_connections(), 1);

    shutdown.start_drain();
    assert_eq!(shutdown.state(), State::Draining);
    assert!(!shutdown.is_accepting());

    assert!(!shutdown.connection_opened());

    shutdown.connection_closed();
    assert_eq!(shutdown.state(), State::Terminated);
}

#[test]
fn a_shutdown_never_goes_back() {
    let mut shutdown = Shutdown::new(Duration::from_secs(1));
    assert_eq!(shutdown.drain_timeout().as_secs(), 1);
    shutdown.terminate();
    assert_eq!(shutdown.state(), State::Terminated);
    shutdown.start_drain();
    assert_eq!(shutdown.state(), State::Terminated);
}

// Server

fn serving() -> Server {
    let mut s = Server::new();
    s.run(ServerEvent::Run, &at(0));
    s.run(ServerEvent::Waited { active: 0 }, &at(0));
    s.run(ServerEvent::WorkersStarted, &at(0));
    s.run(ServerEvent::ForwarderStarted, &at(0));
    let actions = s.run(ServerEvent::ListenersStarted { ok: true }, &at(0));
    assert_eq!(actions[0], ServerAction::SetReady(true));
    s
}

#[test]
fn the_server_starts_in_order() {
    let mut s = Server::new();
    assert_eq!(
        s.run(ServerEvent::Run, &at(0)),
        vec![
            ServerAction::Publish(Notice::Starting),
            ServerAction::SpawnAdmin,
            ServerAction::Pause(50),
        ]
    );
    assert!(s.run(ServerEvent::WorkersStarted, &at(0)).is_empty());
    assert_eq!(s.run(ServerEvent::Waited { active: 0 }, &at(0)), vec![ServerAction::StartWorkers]);
    assert!(!s.ready);
    assert!(serving().ready);
}

#[test]
fn the_server_drains_before_it_ends() {
    let mut s = serving();
    let actions = s.run(ServerEvent::ShutdownSignal, &at(1));
    assert!(actions.contains(&ServerAction::BeginDrain));
    assert!(!s.ready && !s.healthy);
    let draining = ServerEvent::DrainProgress { active: 2, state: State::Draining };
    assert!(s.run(draining, &at(2)).is_empty());
    assert_eq!(s.run(ServerEvent::DrainTimedOut, &at(31)), vec![ServerAction::StopWorkers]);
    assert_eq!(s.run(ServerEvent::WorkersStopped, &at(32))[0], ServerAction::Terminate);
    assert_eq!(s.phase, ServerPhase::Stopped);
    assert!(s.run(ServerEvent::Run, &at(33)).is_empty());
}

#[test]
fn reloads_wait_for_connections_but_not_forever() {
    let mut s = serving();
    assert_eq!(s.run(ServerEvent::ReloadSignal, &at(0)), vec![ServerAction::LoadConfig]);
    let loaded = ServerEvent::ConfigLoaded { ok: true, active: 1 };
    assert_eq!(s.run(loaded, &at(0)), vec![ServerAction::Pause(100)]);
    assert_eq!(s.run(ServerEvent::Waited { active: 1 }, &at(10)), vec![ServerAction::Pause(100)]);
    assert_eq!(s.run(ServerEvent::Waited { active: 1 }, &at(11)), vec![ServerAction::StopWorkers]);
    assert_eq!(s.run(ServerEvent::WorkersStopped, &at(11)), vec![ServerAction::ReloadState]);
    assert_eq!(
        s.run(ServerEvent::StateReloaded { ok: false }, &at(11)),
        vec![ServerAction::StartWorkers]
    );
    assert_eq!(s.run(ServerEvent::WorkersStarted, &at(11))[0], ServerAction::Publish(Notice::ConfigReloaded));
    assert_eq!(s.phase, ServerPhase::Serving);
}

#[test]
fn failed_loads_leave_the_server_as_it_is() {
    let mut s = serving();
    s.run(ServerEvent::ReloadSignal, &at(0));
    let failed = ServerEvent::ConfigLoaded { ok: false, active: 3 };
    assert_eq!(s.run(failed, &at(0)), vec![ServerAction::AwaitSignals]);
    assert!(s.ready);
}

#[test]
fn maintenance_stops_with_the_server() {
    let (ttl, age) = maintenance(State::Running).unwrap();
    assert_eq!((ttl.as_secs(), age.as_secs()), (3600, 86400));
    assert!(maintenance(State::Terminated).is_none());
}

fn route_config() -> RouteConfig {
    RouteConfig {
        name: "r".to_string(),
        match_: RouteMatch {
            destination: None,
            source: None,
            sender_id: None,
            system_id: None,
            service_type: None,
            esm_class: None,
            data_coding: None,
            time_window: None,
            prefix: None,
            regex: None,
        },
        cluster: Some("c".to_string()),
        split: None,
        fallback: None,
        priority: 0,
    }
}

fn listener_config(max: usize, tls: bool) -> ListenerConfig {
    ListenerConfig {
        name: "main".to_string(),
        address: SocketAddr { ip: IpAddr::V4(0), port: 2775 },
        protocol: Protocol::Smpp,
        tls: if tls {
            Some(TlsConfig {
                cert: "c".to_string(),
                key: "k".to_string(),
                ca: None,
                require_client_cert: false,
            })
        } else {
            None
        },
        filters: vec![],
        limits: ConnectionLimits { max_connections: max, ..ConnectionLimits::default() },
    }
}

fn config() -> Config {
    Config {
        listeners: vec![listener_config(10, false)],
        clusters: vec![ClusterConfig {
            name: "c".to_string(),
            endpoints: vec![],
            load_balancer: LoadBalancer::RoundRobin,
            health_check: HealthCheckConfig::default(),
            pool: PoolConfig::default(),
            mock: Some(MockConfig {
                response: MockResponse::Success,
                latency: Duration::from_secs(0),
            }),
        }],
        routes: vec![route_config()],
        clients: vec![],
        admin: AdminConfig::default(),
        settings: Settings::default(),
        telemetry: TelemetryConfig::default(),
    }
}

#[test]
fn targets_of_routes_are_shown() {
    let mut r = route_config();
    assert_eq!(route_target(&r), "c");
    r.cluster = None;
    r.split = Some(vec![
        TrafficSplit { cluster: "a".to_string(), weight: 90 },
        TrafficSplit { cluster: "b".to_string(), weight: 10 },
    ]);
    assert_eq!(route_target(&r), "split(2)");
    r.split = None;
    assert_eq!(route_target(&r), "none");
}

#[test]
fn workers_by_the_configuration() {
    let mut c = config();
    c.telemetry.workers = 3;
    let w = create_workers(&c);
    assert_eq!(w.workers, 3);
    assert_eq!(w.worker_count(8), 3);
    assert_eq!(WorkerConfig { workers: 0, ..WorkerConfig::default() }.worker_count(8), 8);
    assert!(w.worker_name(2).ends_with('2'));
    assert!(w.worker_name(2).starts_with(&w.name_prefix));
}

// Listener

#[test]
fn connections_up_to_the_limit() {
    let mut l = Listener::new(&listener_config(1, false));
    assert_eq!((l.name(), l.uses_tls()), ("main", false));
    let id = match l.handle_accept(AcceptEvent::Arrived(peer())) {
        AcceptAction::ConfigureSocket { id } => id,
        _ => panic!("expected a connection"),
    };
    assert_eq!(l.handle_accept(AcceptEvent::Arrived(peer())), AcceptAction::Reject);
    assert_eq!(
        l.handle_accept(AcceptEvent::SocketConfigured { id, ok: true }),
        AcceptAction::OpenSession { id }
    );
    assert_eq!(l.active_connections(), 1);
    assert_eq!(l.drain_connections(), vec![id]);
    assert_eq!(l.connection(id).unwrap().peer_addr(), peer());
    assert_eq!(l.handle_accept(AcceptEvent::Closed { id }), AcceptAction::Drop { id });
    assert_eq!(l.active_connections(), 0);
    assert!(matches!(
        l.handle_accept(AcceptEvent::Arrived(peer())),
        AcceptAction::ConfigureSocket { id: next } if next != id
    ));
}

#[test]
fn sessions_with_tls_need_a_handshake() {
    let mut l = Listener::new(&listener_config(5, true));
    let mut open = || match l.handle_accept(AcceptEvent::Arrived(peer())) {
        AcceptAction::ConfigureSocket { id } => id,
        _ => panic!("expected a connection"),
    };
    let (a, b) = (open(), open());
    assert_eq!(
        l.handle_accept(AcceptEvent::SocketConfigured { id: a, ok: true }),
        AcceptAction::DoHandshake { id: a, within_secs: 10 }
    );
    assert_eq!(
        l.handle_accept(AcceptEvent::HandshakeEnded { id: a, outcome: Handshake::Completed }),
        AcceptAction::OpenSession { id: a }
    );
    l.handle_accept(AcceptEvent::SocketConfigured { id: b, ok: true });
    assert_eq!(
        l.handle_accept(AcceptEvent::HandshakeEnded { id: b, outcome: Handshake::TimedOut }),
        AcceptAction::Drop { id: b }
    );
    assert_eq!(l.handle_accept(AcceptEvent::Closed { id: b }), AcceptAction::Nothing);
    assert_eq!(l.active_connections(), 1);
    let listeners = Listeners::new(&vec![listener_config(1, false)]);
    assert_eq!(listeners.len(), 1);
    assert!(!listeners.is_empty());
}

#[test]
fn connections_keep_their_state() {
    let mut c = Connection::new(
        ConnectionId(3),
        "main".to_string(),
        peer(),
        Duration::from_secs(60),
        Duration::from_secs(30),
    );
    assert_eq!(c.id().to_string(), ConnectionId(3).to_string());
    assert_eq!(c.listener(), "main");
    assert_eq!(c.state(), ConnectionState::Open);
    assert!(!c.is_bound());
    c.set_state(ConnectionState::BoundTx);
    c.set_system_id("esme".to_string());
    assert!(c.is_bound());
    assert_eq!(c.system_id().as_deref(), Some("esme"));
    let first = c.next_sequence();
    assert_eq!(c.next_sequence(), first + 1);
    c.touch_at(at(10));
    assert_eq!(c.idle_time_at(&at(15)).as_secs(), 5);
    assert!(!c.is_idle_at(&at(69)));
    assert!(c.is_idle_at(&at(71)));
    assert!(!c.is_closing());
    c.initiate_close();
    assert!(c.is_closing());
    assert!(c.uptime().as_secs() < 10);
    assert_eq!((c.idle_timeout().as_secs(), c.request_timeout().as_secs()), (60, 30));
}

#[test]
fn connection_states() {
    assert!(ConnectionState::BoundRx.can_receive() != ConnectionState::BoundTx.can_receive());
    assert!(ConnectionState::BoundTrx.can_send() && ConnectionState::BoundTrx.can_receive());
    assert!(!ConnectionState::Open.can_send());
    assert!(!ConnectionState::Open.to_string().is_empty());
    assert_eq!(SessionState::from(ConnectionState::Unbinding), SessionState::Unbinding);
}

// Registry

#[test]
fn test_register_unregister() {
    let mut registry = SessionRegistry::new();
    let session_id = SessionId::new(&mut IdSource::new());

    registry.register(session_id, "test".to_string());
    assert!(registry.contains(session_id));

    registry.unregister(session_id);
    assert!(!registry.contains(session_id));
}

#[test]
fn test_send_response() {
    let mut registry = SessionRegistry::new();
    let session_id = SessionId::new(&mut IdSource::new());

    registry.register(session_id, "test".to_string());

    let response = ResponseEnvelope::success(session_id, 1, "msg_123".to_string());
    assert!(registry.route(&response));
    assert!(registry.sent(&response, Delivery::Taken));

    let received = response.copy();
    assert_eq!(received.sequence_number, 1);
    assert_eq!(received.message_id, "msg_123");
    assert!(!registry.sent(&response, Delivery::Full));
    assert!(!registry.sent(&response, Delivery::Closed));
}

#[test]
fn test_send_to_unknown_session() {
    let registry = SessionRegistry::new();
    let session_id = SessionId::new(&mut IdSource::new());

    let response = ResponseEnvelope::success(session_id, 1, "msg_123".to_string());
    assert!(!registry.route(&response));
    assert!(!registry.sent(&response, Delivery::Taken));
}

#[test]
fn registered_sessions_are_counted() {
    let mut ids = IdSource::new();
    let mut registry = SessionRegistry::new();
    let a = SessionId::new(&mut ids);
    registry.register(a, "main".to_string());
    registry.set_system_id(a, "esme".to_string());
    registry.register(SessionId::new(&mut ids), "main".to_string());
    assert_eq!(registry.count(), 2);
    assert!(registry.unregister(a));
    assert!(!registry.unregister(a));
    assert_eq!(registry.count(), 1);
}

// Sessions

fn session() -> SmppSession {
    SmppSession::new(
        SessionId::new(&mut IdSource::starting_at(1)),
        Connection::new(
            ConnectionId(1),
            "main".to_string(),
            peer(),
            Duration::from_secs(60),
            Duration::from_secs(30),
        ),
    )
}

fn frame(sequence: u32, pdu: Pdu) -> SessionEvent {
    SessionEvent::Frame(Frame { sequence, is_response: false, pdu })
}

fn bind() -> BindFields {
    BindFields { system_id: "esme".to_string(), password: "pw".to_string() }
}

fn message() -> Pdu {
    Pdu::SubmitSm(SubmitSm {
        service_type: String::new(),
        source_addr_ton: 0,
        source_addr_npi: 0,
        source_addr: "A".to_string(),
        dest_addr_ton: 0,
        dest_addr_npi: 0,
        dest_addr: "B".to_string(),
        esm_class: 0,
        protocol_id: 0,
        priority_flag: 0,
        schedule_delivery_time: String::new(),
        validity_period: String::new(),
        registered_delivery: 0,
        replace_if_present_flag: 0,
        data_coding: 0,
        sm_default_msg_id: 0,
        short_message: vec![],
    })
}

fn step(s: &mut SmppSession, event: SessionEvent) -> SessionAction {
    s.step(event, &at(5), None, MessageId(9))
}

fn bound() -> SmppSession {
    let mut store = InMemoryCredentialStore::new();
    store.add(Credentials::new("esme", "pw"));
    let mut s = session();
    match s.step_with(frame(1, Pdu::BindTransceiver(bind())), &store, MessageId(1)) {
        SessionAction::Send(r) => {
            assert_eq!(r.status, Status::Success);
            assert_eq!(r.command, Command::BindTransceiverResp);
            assert_eq!(r.text, "smppd");
        }
        _ => panic!("expected an answer"),
    }
    assert_eq!(s.connection().state(), ConnectionState::BoundTrx);
    s
}

fn nacked(action: SessionAction, status: Status) -> bool {
    matches!(action, SessionAction::Send(r) if r.command == Command::GenericNack && r.status == status)
}

#[test]
fn binds_need_the_right_password() {
    let mut s = session();
    match s.step(frame(1, Pdu::BindReceiver(bind())), &at(0), None, MessageId(1)) {
        SessionAction::Send(r) => assert_eq!(r.status, Status::InvalidPassword),
        _ => panic!("expected an answer"),
    }
    let mut barred = Credentials::new("esme", "pw");
    barred.allowed_bind_types = vec![BindType::Transmitter];
    match s.step(frame(2, Pdu::BindReceiver(bind())), &at(0), Some(barred), MessageId(1)) {
        SessionAction::Send(r) => assert_eq!(r.status, Status::BindFailed),
        _ => panic!("expected an answer"),
    }
    assert_eq!(s.connection().state(), ConnectionState::Open);
    let creds = Some(Credentials::new("esme", "pw"));
    assert_eq!(s.handle_bind_receiver(3, &bind(), creds).status, Status::Success);
    assert_eq!(s.connection().state(), ConnectionState::BoundRx);
    assert!(nacked(step(&mut s, frame(4, message())), Status::InvalidBindStatus));
    assert!(nacked(step(&mut s, frame(5, Pdu::BindReceiver(bind()))), Status::InvalidBindStatus));
}

#[test]
fn bound_sessions_publish_messages() {
    let mut s = bound();
    match step(&mut s, frame(7, message())) {
        SessionAction::Publish(e) => {
            assert_eq!((e.sequence_number, e.message_id), (7, MessageId(9)));
            assert_eq!(e.system_id, "esme");
            assert_eq!(e.session_id, s.session_id());
        }
        _ => panic!("expected a message"),
    }
    let answer = ResponseEnvelope::success(s.session_id(), 7, "m".to_string());
    match step(&mut s, SessionEvent::Response(answer)) {
        SessionAction::TrySend(r) => {
            assert_eq!((r.sequence, r.text.as_str()), (7, "m"));
            assert_eq!(r.command, Command::SubmitSmResp);
        }
        _ => panic!("expected an answer"),
    }
}

#[test]
fn sessions_answer_requests() {
    let mut s = bound();
    assert!(matches!(
        step(&mut s, frame(2, Pdu::EnquireLink)),
        SessionAction::Send(r) if r.command == Command::EnquireLinkResp
    ));
    assert!(nacked(step(&mut s, frame(3, Pdu::Other)), Status::InvalidCommandId));
    assert!(matches!(step(&mut s, frame(3, Pdu::GenericNack)), SessionAction::Nothing));
    assert!(matches!(
        step(&mut s, SessionEvent::IdleTimeout),
        SessionAction::Send(r) if r.command == Command::EnquireLink
    ));
    assert!(matches!(step(&mut s, SessionEvent::Tick), SessionAction::Nothing));
    assert!(matches!(
        step(&mut s, frame(4, Pdu::Unbind)),
        SessionAction::Send(r) if r.command == Command::UnbindResp
    ));
    assert_eq!(s.connection().state(), ConnectionState::Unbinding);
}

#[test]
fn sessions_end() {
    let mut s = session();
    assert!(nacked(step(&mut s, frame(1, Pdu::Unbind)), Status::InvalidBindStatus));
    assert!(matches!(step(&mut s, SessionEvent::IdleTimeout), SessionAction::End));
    assert_eq!(s.connection().state(), ConnectionState::Closed);
    assert!(matches!(step(&mut session(), SessionEvent::PeerClosed), SessionAction::End));
    assert!(matches!(step(&mut session(), SessionEvent::DecodeError), SessionAction::End));
}

#[test]
fn session_errors_have_texts() {
    let text = "x".to_string();
    for e in [
        SessionError::Io(text.clone()),
        SessionError::Smpp(text.clone()),
        SessionError::InvalidState(text.clone()),
        SessionError::Protocol(text.clone()),
    ] {
        assert!(e.to_string().ends_with('x'));
    }
    assert!(!SessionError::Timeout.to_string().is_empty());
    assert!(SessionError::Timeout.to_string() != SessionError::Closed.to_string());
}

// Random numbers

#[test]
fn random_numbers_follow_their_seed() {
    let mut s = RandomSource::from_seed(1);
    let mut x: u64 = 1;
    x ^= x << 13;
    x ^= x >> 7;
    x ^= x << 17;
    let r: u64 = s.random_from(99);
    assert_eq!(r, x);
    let mut fresh = RandomSource::new();
    let a: u64 = fresh.random();
    let b: u64 = fresh.random();
    assert!(a != b);
}

// Admin

#[test]
fn admin_answers() {
    let mut state = AdminState::new("/etc/c.yaml".to_string(), Arc::new(config()));
    let (code, health) = health_handler(&state, "1.0");
    assert_eq!((code, health.status.as_str(), health.version.as_str()), (200, "healthy", "1.0"));
    state.set_healthy(false);
    assert_eq!(health_handler(&state, "1.0").0, 503);
    assert_eq!(ready_handler(&state), 503);
    state.set_ready(true);
    assert_eq!(ready_handler(&state), 200);
    assert_eq!(live_handler(), 200);
    assert_eq!(state.config_path(), "/etc/c.yaml");
}

#[test]
fn admin_counts() {
    let mut state = AdminState::new(String::new(), Arc::new(config()));
    state.inc_active_connections();
    state.inc_active_connections();
    state.dec_active_connections();
    state.inc_bound_connections();
    state.inc_messages_submitted();
    state.inc_messages_delivered();
    state.inc_messages_failed();
    let stats = stats_handler(&state, &Clusters::new(&config().clusters));
    assert_eq!(
        (stats.connections.active, stats.connections.total, stats.connections.bound),
        (1, 2, 1)
    );
    assert_eq!(
        (stats.messages.submitted, stats.messages.delivered, stats.messages.failed),
        (1, 1, 1)
    );
    assert_eq!(stats.clusters.len(), 1);
    assert_eq!(stats.clusters[0].name, "c");
    state.dec_bound_connections();
    assert_eq!(state.bound_connections(), 0);
}

#[test]
fn admin_reloads() {
    let mut state = AdminState::new(String::new(), Arc::new(config()));
    let failed = state.reload_config(ReloadOutcome::LoadFailed("x".to_string()));
    assert!(matches!(&failed, Err(m) if m == "failed to load config: x"));
    let (code, result) = reload_handler(&state, failed);
    assert_eq!((code, result.success, result.reload_count), (500, false, 0));
    let failed = state.reload_config(ReloadOutcome::StateFailed("y".to_string()));
    assert!(matches!(&failed, Err(m) if m == "failed to reload gateway state: y"));
    let loaded = state.reload_config(ReloadOutcome::Loaded(Arc::new(config())));
    let (code, result) = reload_handler(&state, loaded);
    assert_eq!((code, result.reload_count, result.listeners), (200, 1, 1));
    assert_eq!(state.reload_count(), 1);
    assert_eq!(state.current_config().routes.len(), 1);
}

#[test]
fn numbers_come_one_after_the_other() {
    let mut ids = IdSource::starting_at(u64::MAX - 1);
    assert_eq!(ids.take(), u64::MAX - 1);
    assert_eq!(ids.take(), u64::MAX);
    assert_eq!(ids.take(), 0);
    assert_eq!(ids.take(), 1);
    let mut fresh = IdSource::new();
    assert_eq!(SessionId::new(&mut fresh).as_u64(), 1);
    assert_eq!(SessionId::new(&mut fresh).as_u64(), 2);
}
