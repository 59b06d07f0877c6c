use smppd::bootstrap::events::{Event, IdSource, MessageEnvelope, MessageId, SessionId};
use smppd::cluster::Clusters;
use smppd::config::types::{
    ClusterConfig, HealthCheckConfig, LoadBalancer, MockConfig, MockResponse, PoolConfig,
};
use smppd::feedback::types::{DecisionId, DecisionType};
use smppd::forwarder::decisions::{
    forward_outcome, retry_decision, retry_outcome, route_decision,
};
use smppd::forwarder::dlr::{
    find_message_by_smsc_id, parse_dlr, process_dlr, receipt_text, DeliverSm, DeliveryStatus,
    DlrDecision, TextReceipt,
};
use smppd::forwarder::processor::{
    begin_attempt, finish_attempt, reach, ForwardAction, ForwardError, ForwardEvent, ForwardPhase,
    ForwardResult, Forwarding, Reach, SendOutcome, NOT_FORWARDED, NO_ROUTE,
};
use smppd::forwarder::retry::{
    begin_retry, build_submit_sm, finish_retry, RetryAction, RetryError, RetryEvent,
    RetryProcessor, Retrying,
};
use smppd::forwarder::store::{
    clusters_to_try, MessageState, NewMessage, RouteResult, StoreUpdate, StoredMessage,
};
use smppd::forwarder::ForwarderConfig;
use smppd::pdu::SubmitSm;
use smppd::pipeline::filter::FilterProcessor;
use smppd::pipeline::forwarder::{
    begin_forward, finish_forward, AttemptError, ForwarderProcessor, NextStep, StagePhase,
};
use smppd::pipeline::response::ResponseProcessor;
use smppd::pipeline::router::RouterProcessor;
use smppd::pipeline::PipelineConfig;
use smppd::time::{Duration, Instant};

fn submit(source: &str, dest: &str) -> SubmitSm {
    SubmitSm {
        service_type: "CMT".to_string(),
        source_addr_ton: 5,
        source_addr_npi: 1,
        source_addr: source.to_string(),
        dest_addr_ton: 1,
        dest_addr_npi: 1,
        dest_addr: dest.to_string(),
        esm_class: 3,
        protocol_id: 0,
        priority_flag: 0,
        schedule_delivery_time: String::new(),
        validity_period: String::new(),
        registered_delivery: 1,
        replace_if_present_flag: 0,
        data_coding: 8,
        sm_default_msg_id: 0,
        short_message: b"hello".to_vec(),
    }
}

fn session() -> SessionId {
    SessionId::new(&mut IdSource::starting_at(42))
}

fn envelope(source: &str, dest: &str) -> MessageEnvelope {
    MessageEnvelope::new(MessageId(7), session(), 11, "esme".to_string(), submit(source, dest))
}

fn stored(id: u64, smsc_id: Option<&str>, state: MessageState) -> StoredMessage {
    StoredMessage {
        id: MessageId(id),
        system_id: "esme".to_string(),
        smsc_message_id: smsc_id.map(|s| s.to_string()),
        state,
        attempts: 1,
        expired: false,
        source: "A".to_string(),
        destination: "B".to_string(),
        service_type: None,
        esm_class: 3,
        registered_delivery: 1,
        data_coding: 8,
        short_message: b"hi".to_vec(),
    }
}

fn route() -> RouteResult {
    RouteResult {
        route_name: "r".to_string(),
        cluster_name: "a".to_string(),
        fallback: vec!["b".to_string()],
    }
}

fn receipt(short_message: &[u8]) -> DeliverSm {
    DeliverSm {
        source_addr: "S".to_string(),
        dest_addr: "D".to_string(),
        is_receipt: true,
        short_message: short_message.to_vec(),
        receipted_message_id: None,
        message_state: None,
        network_error_code: None,
    }
}

// Receipts

#[test]
fn test_delivery_status_from_u8() {
    assert_eq!(DeliveryStatus::from(1u8), DeliveryStatus::Enroute);
    assert_eq!(DeliveryStatus::from(2u8), DeliveryStatus::Delivered);
    assert_eq!(DeliveryStatus::from(3u8), DeliveryStatus::Expired);
    assert_eq!(DeliveryStatus::from(5u8), DeliveryStatus::Undeliverable);
    assert_eq!(DeliveryStatus::from(99u8), DeliveryStatus::Unknown);
}

#[test]
fn test_delivery_status_is_final() {
    assert!(DeliveryStatus::Delivered.is_final());
    assert!(DeliveryStatus::Expired.is_final());
    assert!(DeliveryStatus::Undeliverable.is_final());
    assert!(!DeliveryStatus::Enroute.is_final());
    assert!(!DeliveryStatus::Accepted.is_final());
}

#[test]
fn test_delivery_status_success_failure() {
    assert!(DeliveryStatus::Delivered.is_success());
    assert!(!DeliveryStatus::Expired.is_success());

    assert!(DeliveryStatus::Expired.is_failure());
    assert!(DeliveryStatus::Undeliverable.is_failure());
    assert!(!DeliveryStatus::Delivered.is_failure());
}

#[test]
fn statuses_have_texts() {
    assert_eq!(DeliveryStatus::Delivered.as_str(), "DELIVRD");
    assert_eq!(DeliveryStatus::Undeliverable.as_str(), "UNDELIV");
}

#[test]
fn receipts_by_their_text() {
    let parsed = TextReceipt {
        message_id: "x1".to_string(),
        status: DeliveryStatus::Delivered,
        error_code: Some("007".to_string()),
        submit_date: Some("2401011200".to_string()),
        done_date: None,
        text: None,
    };
    let r = parse_dlr(&receipt(b"id:x1 stat:DELIVRD"), Some(parsed)).unwrap();
    assert_eq!(r.smsc_message_id, "x1");
    assert_eq!(r.error_code, Some(7));
    assert_eq!(r.raw, "id:x1 stat:DELIVRD");
    assert_eq!(r.submit_date.as_deref(), Some("2401011200"));
}

#[test]
fn receipts_by_their_parameters() {
    let mut deliver = receipt(&[0xff, b'x']);
    assert!(parse_dlr(&deliver, None).is_none());
    deliver.receipted_message_id = Some("x2".to_string());
    let unknown = parse_dlr(&deliver, None).unwrap();
    assert_eq!(unknown.status, DeliveryStatus::Unknown);
    assert_eq!(unknown.raw, "\u{fffd}x");
    assert_eq!(receipt_text(&deliver), "\u{fffd}x");
    deliver.message_state = Some(5);
    deliver.network_error_code = Some(34);
    let failed = parse_dlr(&deliver, None).unwrap();
    assert_eq!(failed.status, DeliveryStatus::Undeliverable);
    assert_eq!(failed.error_code, Some(34));
    deliver.is_receipt = false;
    assert!(parse_dlr(&deliver, None).is_none());
}

#[test]
fn receipts_are_correlated() {
    let in_flight = vec![
        stored(1, Some("x1"), MessageState::InFlight),
        stored(2, Some("x2"), MessageState::InFlight),
    ];
    let retrying = vec![stored(3, Some("x3"), MessageState::Retrying)];
    assert_eq!(find_message_by_smsc_id(&in_flight, &retrying, "x2").unwrap().id, MessageId(2));
    assert_eq!(find_message_by_smsc_id(&in_flight, &retrying, "x3").unwrap().id, MessageId(3));
    assert!(find_message_by_smsc_id(&in_flight, &retrying, "x4").is_none());
    let decide = |id: &str, state: u8| {
        let mut deliver = receipt(b"");
        deliver.receipted_message_id = Some(id.to_string());
        deliver.message_state = Some(state);
        process_dlr(&parse_dlr(&deliver, None), &in_flight, &retrying)
    };
    match decide("x3", 2) {
        DlrDecision::Correlated { message_id, system_id, update } => {
            assert_eq!(message_id, MessageId(3));
            assert_eq!(system_id, "esme");
            assert!(matches!(
                update,
                Some(StoreUpdate::Receipt { state: MessageState::Delivered, last_error: None, .. })
            ));
        }
        _ => panic!("expected a message"),
    }
    match decide("x1", 3) {
        DlrDecision::Correlated {
            update: Some(StoreUpdate::Receipt { state, last_error, .. }),
            ..
        } => {
            assert_eq!(state, MessageState::Failed);
            assert_eq!(last_error.as_deref(), Some("DLR: EXPIRED"));
        }
        _ => panic!("expected a change"),
    }
    assert!(matches!(decide("x1", 1), DlrDecision::Correlated { update: None, .. }));
    assert!(matches!(decide("x9", 2), DlrDecision::Orphaned));
    assert!(matches!(process_dlr(&None, &in_flight, &retrying), DlrDecision::NotReceipt));
}

// Attempts

fn mock_clusters() -> Clusters {
    let config = |name: &str, mock: bool| ClusterConfig {
        name: name.to_string(),
        endpoints: vec![],
        load_balancer: LoadBalancer::RoundRobin,
        health_check: HealthCheckConfig::default(),
        pool: PoolConfig::default(),
        mock: if mock {
            Some(MockConfig { response: MockResponse::Success, latency: Duration::from_secs(0) })
        } else {
            None
        },
    };
    Clusters::new(&vec![config("m", true), config("e", false)])
}

#[test]
fn clusters_are_reached() {
    let clusters = mock_clusters();
    assert_eq!(reach(&clusters, "m"), Reach::Mock);
    assert_eq!(reach(&clusters, "e"), Reach::Endpoints);
    assert_eq!(reach(&clusters, "x"), Reach::NotFound);
}

#[test]
fn attempts_begin_and_end() {
    assert!(matches!(begin_attempt(Reach::Mock, "m", "9"), Some(Ok(id)) if id == "MOCK-9"));
    assert!(begin_attempt(Reach::Endpoints, "e", "9").is_none());
    match begin_attempt(Reach::NotFound, "x", "9") {
        Some(Err(e)) => assert_eq!(e.to_string(), "cluster not found: x"),
        _ => panic!("expected an error"),
    }
    let ok = SendOutcome::Response { status: 0, message_id: "u1".to_string() };
    let (update, outcome) = finish_attempt(ok);
    assert!(matches!(update, Some(StoreUpdate::Response { status: 0, .. })));
    assert!(matches!(outcome, Ok(id) if id == "u1"));
    let bad = SendOutcome::Response { status: 8, message_id: "u2".to_string() };
    let (update, outcome) = finish_attempt(bad);
    assert!(matches!(update, Some(StoreUpdate::Response { status: 8, .. })));
    match outcome {
        Err(e) => assert_eq!(e.to_string(), "SMSC error: status=8, message_id=u2"),
        Ok(_) => panic!("expected an error"),
    }
    assert!(matches!(finish_attempt(SendOutcome::TimedOut), (None, Err(ForwardError::Timeout))));
    assert!(matches!(
        finish_attempt(SendOutcome::NoConnection),
        (None, Err(ForwardError::NoConnection))
    ));
}

#[test]
fn forward_errors_have_texts() {
    assert_eq!(ForwardError::NoConnection.to_string(), "no healthy connection available");
    assert_eq!(ForwardError::Timeout.to_string(), "timeout waiting for response");
    assert_eq!(ForwardError::IoError("e".to_string()).to_string(), "I/O error: e");
    assert_eq!(
        ForwardError::UnexpectedResponse("p".to_string()).to_string(),
        "unexpected response: p"
    );
    assert_eq!(RetryError::ClusterNotFound("c".to_string()).to_string(), "cluster not found: c");
    assert_eq!(RetryError::NoConnection.to_string(), "no healthy connection available");
    assert_eq!(RetryError::Timeout.to_string(), "timeout");
    assert_eq!(RetryError::IoError("e".to_string()).to_string(), "I/O error: e");
    assert_eq!(RetryError::SmscError { status: 88 }.to_string(), "SMSC error: status=88");
    assert_eq!(
        RetryError::UnexpectedResponse("p".to_string()).to_string(),
        "unexpected response: p"
    );
}

// Forwarding

#[test]
fn fallbacks_are_tried_in_order() {
    let mut f = Forwarding::new("7".to_string());
    assert_eq!(f.message_id(), "7");
    assert!(matches!(f.step(ForwardEvent::Routed(Some(route()))), ForwardAction::Try(c) if c == "a"));
    assert!(matches!(
        f.step(ForwardEvent::Attempted(Err(ForwardError::Timeout))),
        ForwardAction::Try(c) if c == "b"
    ));
    match f.step(ForwardEvent::Attempted(Ok("u1".to_string()))) {
        ForwardAction::Finish { update, result } => {
            assert!(matches!(
                update,
                StoreUpdate::InFlight { cluster, smsc_message_id, .. }
                    if cluster == "b" && smsc_message_id == "u1"
            ));
            assert_eq!(result.message_id, "7");
            assert_eq!(result.command_status, 0);
        }
        _ => panic!("expected an answer"),
    }
    assert_eq!(f.phase(), ForwardPhase::Done);
    assert!(matches!(f.step(ForwardEvent::RetryAllowed(true)), ForwardAction::Ignore));
}

#[test]
fn messages_without_a_route_fail() {
    let mut f = Forwarding::new("7".to_string());
    match f.step(ForwardEvent::Routed(None)) {
        ForwardAction::Finish { update, result } => {
            assert!(matches!(update, StoreUpdate::Failed { code: NO_ROUTE, .. }));
            assert_eq!(result.command_status, 0x0B);
            assert_eq!(result.error.as_deref(), Some("no route found"));
        }
        _ => panic!("expected an answer"),
    }
}

#[test]
fn the_store_decides_on_retries() {
    for allowed in [true, false] {
        let mut f = Forwarding::new("7".to_string());
        f.step(ForwardEvent::Routed(Some(route())));
        f.step(ForwardEvent::Attempted(Err(ForwardError::Timeout)));
        match f.step(ForwardEvent::Attempted(Err(ForwardError::NoConnection))) {
            ForwardAction::AskRetry { code, reason } => {
                assert_eq!(code, NOT_FORWARDED);
                assert_eq!(reason, "no healthy connection available");
            }
            _ => panic!("expected a question"),
        }
        match f.step(ForwardEvent::RetryAllowed(allowed)) {
            ForwardAction::Finish { update, result } => {
                match update {
                    StoreUpdate::Retry { delay, .. } => {
                        assert!(allowed);
                        assert_eq!(delay.as_millis(), 1000);
                    }
                    StoreUpdate::Failed { code, .. } => {
                        assert!(!allowed);
                        assert_eq!(code, 0x58);
                    }
                    _ => panic!("unexpected change"),
                }
                assert_eq!(result.message_id, "7");
            }
            _ => panic!("expected an answer"),
        }
    }
}

#[test]
fn results_hold_what_is_told() {
    let fine = ForwardResult::success("m".to_string());
    assert_eq!((fine.command_status, fine.error), (0, None));
    let bad = ForwardResult::error("m".to_string(), 8, "why".to_string());
    assert_eq!((bad.command_status, bad.error.as_deref()), (8, Some("why")));
}

#[test]
fn defaults_of_the_forwarder() {
    let c = ForwarderConfig::default();
    assert!(c.base_retry_delay.as_millis() <= c.max_retry_delay.as_millis());
    let p = PipelineConfig::default();
    assert_eq!((p.forward_concurrency, p.upstream_timeout_secs), (100, 30));
}

#[test]
fn clusters_in_order() {
    let list = clusters_to_try("a", &vec!["b".to_string(), "c".to_string()]);
    assert_eq!(list, vec!["a", "b", "c"]);
    assert_eq!(clusters_to_try("a", &vec![]), vec!["a"]);
}

#[test]
fn new_messages_are_taken_from_the_request() {
    let m = NewMessage::from_submit(&submit("A", "B"), "esme", 4);
    assert_eq!((m.source.as_str(), m.destination.as_str()), ("A", "B"));
    assert_eq!((m.data_coding, m.esm_class, m.registered_delivery), (8, 3, 1));
    assert_eq!((m.sequence_number, m.system_id.as_str()), (4, "esme"));
    assert_eq!(m.short_message, b"hello".to_vec());
}

// Retries

fn processor() -> RetryProcessor {
    RetryProcessor::new(
        Duration::from_secs(5),
        Duration::from_secs(1),
        Duration::from_secs(10),
    )
}

#[test]
fn delays_double_up_to_the_maximum() {
    let p = processor();
    let delays: Vec<u128> = (0..6).map(|n| p.calculate_backoff(n).as_millis()).collect();
    assert_eq!(delays, vec![1000, 2000, 4000, 8000, 10000, 10000]);
    assert_eq!(p.interval_between().as_secs(), 5);
}

#[test]
fn retries_go_through_the_clusters() {
    let p = processor();
    let mut r = Retrying::new();
    let mut current = stored(1, None, MessageState::Retrying);
    current.attempts = 2;
    assert!(matches!(r.step(RetryEvent::Current(Some(current)), &p), RetryAction::AskRoute));
    assert_eq!(r.attempt(), 3);
    assert!(matches!(r.step(RetryEvent::Routed(Some(route())), &p), RetryAction::Try(c) if c == "a"));
    assert!(matches!(
        r.step(RetryEvent::Attempted(Err(RetryError::Timeout)), &p),
        RetryAction::Try(c) if c == "b"
    ));
    match r.step(RetryEvent::Attempted(Err(RetryError::NoConnection)), &p) {
        RetryAction::Finish(StoreUpdate::Retry { delay, code, reason }) => {
            assert_eq!(delay.as_millis(), 4000);
            assert_eq!(code, 0x58);
            assert_eq!(reason, "all clusters failed");
        }
        _ => panic!("expected another try"),
    }
    assert!(matches!(r.step(RetryEvent::Routed(None), &p), RetryAction::Ignore));
}

#[test]
fn retries_that_come_to_an_end() {
    let p = processor();
    let check = |m: Option<StoredMessage>| Retrying::new().step(RetryEvent::Current(m), &p);
    let with = |attempts: u32, expired: bool, state: MessageState| {
        let mut m = stored(1, None, state);
        m.attempts = attempts;
        m.expired = expired;
        Some(m)
    };
    assert!(matches!(check(None), RetryAction::Ignore));
    assert!(matches!(check(with(0, false, MessageState::Delivered)), RetryAction::Ignore));
    match check(with(5, true, MessageState::Retrying)) {
        RetryAction::Finish(StoreUpdate::Failed { reason, .. }) => {
            assert_eq!(reason, "max retries exceeded");
        }
        _ => panic!("expected a failure"),
    }
    assert!(matches!(
        check(with(4, true, MessageState::Retrying)),
        RetryAction::Finish(StoreUpdate::Expired)
    ));
    let mut lost = Retrying::new();
    lost.step(RetryEvent::Current(with(0, false, MessageState::Retrying)), &p);
    assert!(matches!(
        lost.step(RetryEvent::Routed(None), &p),
        RetryAction::Finish(StoreUpdate::Failed { code: NO_ROUTE, .. })
    ));
    let mut sent = Retrying::new();
    sent.step(RetryEvent::Current(with(0, false, MessageState::Retrying)), &p);
    sent.step(RetryEvent::Routed(Some(route())), &p);
    assert!(matches!(
        sent.step(RetryEvent::Attempted(Ok("u".to_string())), &p),
        RetryAction::Finish(StoreUpdate::InFlight { .. })
    ));
}

#[test]
fn retry_attempts_begin_and_end() {
    assert!(matches!(begin_retry(Reach::Mock, "m", "9"), Some(Ok(id)) if id == "MOCK-RETRY-9"));
    assert!(begin_retry(Reach::Endpoints, "m", "9").is_none());
    assert!(matches!(
        begin_retry(Reach::NotFound, "m", "9"),
        Some(Err(RetryError::ClusterNotFound(_)))
    ));
    let sent = |status| SendOutcome::Response { status, message_id: "u".to_string() };
    assert!(matches!(finish_retry(sent(0)), Ok(id) if id == "u"));
    assert!(matches!(finish_retry(sent(5)), Err(RetryError::SmscError { status: 5 })));
    assert!(matches!(
        finish_retry(SendOutcome::Failed("x".to_string())),
        Err(RetryError::IoError(_))
    ));
}

#[test]
fn stored_messages_become_requests() {
    let s = build_submit_sm(&stored(1, None, MessageState::Retrying));
    assert_eq!((s.source_addr.as_str(), s.dest_addr.as_str()), ("A", "B"));
    assert_eq!((s.esm_class, s.registered_delivery, s.data_coding), (3, 1, 8));
    assert_eq!(s.service_type, "");
    assert_eq!(s.short_message, b"hi".to_vec());
}

// Decisions

#[test]
fn decisions_on_routes_are_noted() {
    let now = Instant { nanos: 3 };
    let mut ids = IdSource::starting_at(8);
    let d = route_decision(&mut ids, "B", "A", &route(), &now);
    assert_eq!((d.id.as_u64(), d.decision_type), (8, DecisionType::Route));
    assert_eq!((d.target.as_str(), d.alternatives.clone()), ("a", vec!["b".to_string()]));
    assert_eq!(d.context.destination.as_deref(), Some("B"));
    assert_eq!(d.context.source.as_deref(), Some("A"));
    assert_eq!(d.context.route_name.as_deref(), Some("r"));
    let again = retry_decision(&mut ids, "B", "A", &route(), 3, &now);
    assert_eq!((again.id.as_u64(), again.decision_type), (9, DecisionType::Retry));
    assert_eq!(again.context.attempt, Some(3));
    assert!(again.alternatives.is_empty());
}

#[test]
fn outcomes_follow_the_actions() {
    let now = Instant { nanos: 3 };
    let id = DecisionId::new(&mut IdSource::starting_at(1));
    let took = Duration::from_millis(5);
    let mut f = Forwarding::new("7".to_string());
    let action = f.step(ForwardEvent::Routed(Some(route())));
    assert!(forward_outcome(id, &action, took, &now).is_none());
    f.step(ForwardEvent::Attempted(Err(ForwardError::Timeout)));
    let action = f.step(ForwardEvent::Attempted(Err(ForwardError::NoConnection)));
    let failed = forward_outcome(id, &action, took, &now).unwrap();
    assert_eq!((failed.success, failed.error_code), (false, Some(0x58)));
    assert_eq!(failed.error_message.as_deref(), Some("no healthy connection available"));
    let action = f.step(ForwardEvent::RetryAllowed(true));
    assert!(forward_outcome(id, &action, took, &now).is_none());

    let p = processor();
    let mut r = Retrying::new();
    r.step(RetryEvent::Current(Some(stored(1, None, MessageState::Retrying))), &p);
    r.step(RetryEvent::Routed(Some(route())), &p);
    let action = r.step(RetryEvent::Attempted(Ok("u".to_string())), &p);
    let fine = retry_outcome(id, &action, took, &now).unwrap();
    assert!(fine.success);
    assert_eq!(fine.latency.as_millis(), 5);
}

// Pipeline

#[test]
fn messages_without_addresses_are_rejected() {
    let filter = FilterProcessor::new();
    let accepted = filter.process_message(envelope("A", "B"), "7".to_string());
    assert!(matches!(accepted[..], [Event::MessageAccepted { .. }]));
    let no_dest = filter.process_message(envelope("A", ""), "7".to_string());
    match &no_dest[..] {
        [Event::MessageRejected { reason, status, .. }, Event::ResponseReady(r)] => {
            assert_eq!(reason, "empty destination address");
            assert_eq!(*status, 0x0B);
            assert_eq!((r.command_status, r.sequence_number), (0x0B, 11));
            assert_eq!(r.message_id, "7");
        }
        _ => panic!("expected a refusal"),
    }
    let no_source = filter.process_message(envelope("", "B"), "7".to_string());
    assert!(matches!(no_source[0], Event::MessageRejected { status: 0x0A, .. }));
}

#[test]
fn routed_messages() {
    let router = RouterProcessor::new();
    let m = router.message_to_store(&envelope("A", "B"));
    assert_eq!(m.destination, "B");
    let (update, events) = router.route_message(envelope("A", "B"), Some(route()), "7".to_string());
    assert!(update.is_none());
    assert!(matches!(
        &events[..],
        [Event::MessageRouted { cluster_name, .. }] if cluster_name == "a"
    ));
    let (update, events) = router.route_message(envelope("A", "B"), None, "7".to_string());
    assert!(matches!(update, Some(StoreUpdate::Failed { code: NO_ROUTE, .. })));
    assert!(matches!(events[0], Event::MessageFailed { permanent: true, .. }));
    let answer = ResponseProcessor::new().response_of(&events[1]).unwrap();
    assert_eq!(answer.command_status, 0x0B);
    assert!(ResponseProcessor::new().response_of(&events[0]).is_none());
}

#[test]
fn the_stage_follows_the_clusters() {
    let fallback = vec!["b".to_string()];
    let (mut stage, out) =
        ForwarderProcessor::new(MessageId(7), session(), 11, "7".to_string(), "a", &fallback);
    assert!(matches!(&out.next, NextStep::Try(c) if c == "a"));
    assert!(matches!(&out.events[..], [Event::MessageForwarding { attempt: 1, .. }]));
    let out = stage.attempted(
        Err(AttemptError { code: Some(88), message: "busy".to_string() }),
        &Duration::from_micros(5),
    );
    assert!(matches!(&out.next, NextStep::Try(c) if c == "b"));
    assert!(matches!(&out.events[..], [Event::MessageForwarding { attempt: 2, .. }]));
    let out = stage.attempted(Ok("u1".to_string()), &Duration::from_micros(50));
    assert!(matches!(out.events[0], Event::MessageDelivered { latency_us: 50, .. }));
    assert!(matches!(&out.events[1], Event::ResponseReady(r) if r.message_id == "u1"));
    assert!(matches!(out.update, Some(StoreUpdate::InFlight { .. })));
    assert_eq!(stage.phase(), StagePhase::Done);
}

#[test]
fn the_stage_asks_the_store() {
    for allowed in [true, false] {
        let (mut stage, _) =
            ForwarderProcessor::new(MessageId(7), session(), 11, "7".to_string(), "a", &vec![]);
        let out = stage.attempted(
            Err(AttemptError { code: Some(88), message: "busy".to_string() }),
            &Duration::from_micros(5),
        );
        assert!(matches!(out.next, NextStep::AskRetry));
        assert_eq!(stage.phase(), StagePhase::AskingRetry);
        let out = stage.retry_allowed(allowed);
        match &out.events[..] {
            [Event::MessageRetryScheduled { delay_ms, reason, .. }, Event::ResponseReady(r)] => {
                assert!(allowed);
                assert_eq!((*delay_ms, reason.as_str()), (1000, "busy"));
                assert_eq!(r.command_status, 0);
            }
            [Event::MessageFailed { error_code, .. }, Event::ResponseReady(r)] => {
                assert!(!allowed);
                assert_eq!(*error_code, Some(88));
                assert_eq!(r.command_status, 88);
            }
            _ => panic!("unexpected events"),
        }
    }
}

#[test]
fn stage_attempts_begin_and_end() {
    assert!(matches!(begin_forward(Reach::Mock, "m", "9"), Some(Ok(id)) if id == "MOCK-9"));
    match begin_forward(Reach::NotFound, "m", "9") {
        Some(Err(e)) => assert_eq!(e.message, "cluster not found: m"),
        _ => panic!("expected an error"),
    }
    match finish_forward(SendOutcome::TimedOut) {
        Err(e) => assert_eq!((e.code, e.message.as_str()), (Some(0x58), "timeout waiting for response")),
        Ok(_) => panic!("expected an error"),
    }
    match finish_forward(SendOutcome::Response { status: 20, message_id: String::new() }) {
        Err(e) => assert_eq!((e.code, e.message.as_str()), (Some(20), "SMSC error: status=20")),
        Ok(_) => panic!("expected an error"),
    }
    match finish_forward(SendOutcome::Unexpected("nack".to_string())) {
        Err(e) => assert_eq!((e.code, e.message.as_str()), (None, "unexpected response: nack")),
        Ok(_) => panic!("expected an error"),
    }
}
