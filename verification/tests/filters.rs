use smppd::collections::StringSet;
use smppd::config::types::{BindType, ClientConfig};
use smppd::double::{seconds_times_up_to, ENOUGH};
use smppd::filter::auth::{
    AuthFilter, ConfigCredentialStore, CredentialStore, Credentials, InMemoryCredentialStore,
    OpenCredentialStore,
};
use smppd::filter::chain::{FilterChainBuilder, PassthroughService};
use smppd::filter::firewall::{
    EsmeFirewallSettings, Firewall, FirewallAction, FirewallConfig, FirewallEventType,
    FirewallFilter, FirewallRule, MessageContext, ProtocolParams, RuleType, TimeWindow,
};
use smppd::filter::ratelimit::{RateLimitConfig, RateLimitFilter, RateLimiterStore, TokenBucket};
use smppd::filter::request::{RequestMeta, SmppRequest, SmppResponse};
use smppd::net::IpAddr;
use smppd::pdu::{Pdu, Status, SubmitSm};
use smppd::time::{Instant, UtcTime, Weekday};

fn test_ctx(content: &str, sender: &str, dest: &str) -> MessageContext {
    MessageContext {
        content: content.to_string(),
        sender_id: sender.to_string(),
        destination: dest.to_string(),
        source: sender.to_string(),
        system_id: "test_esme".to_string(),
        protocol: ProtocolParams::default(),
    }
}

fn submit(source: &str, dest: &str, text: &[u8]) -> SubmitSm {
    SubmitSm {
        service_type: String::new(),
        source_addr_ton: 1,
        source_addr_npi: 1,
        source_addr: source.to_string(),
        dest_addr_ton: 1,
        dest_addr_npi: 1,
        dest_addr: dest.to_string(),
        esm_class: 0,
        protocol_id: 0,
        priority_flag: 0,
        schedule_delivery_time: String::new(),
        validity_period: String::new(),
        registered_delivery: 0,
        replace_if_present_flag: 0,
        data_coding: 0,
        sm_default_msg_id: 0,
        short_message: text.to_vec(),
    }
}

fn at(millis: u128) -> Instant {
    Instant { nanos: millis * 1_000_000 }
}

// Requests

#[test]
fn requests_show_their_addresses() {
    let meta = RequestMeta::new().with_system_id("esme").with_source_addr("S");
    let request = SmppRequest::with_meta(Pdu::SubmitSm(submit("A", "B", b"hi")), 7, meta);
    assert_eq!(request.source(), Some("A"));
    assert_eq!(request.destination(), Some("B"));
    assert_eq!(request.message(), Some(&b"hi"[..]));
    assert_eq!(request.meta.system_id.as_deref(), Some("esme"));
    assert!(request.meta.elapsed().is_some());
    let other = SmppRequest::new(Pdu::EnquireLink, 1);
    assert_eq!(other.destination(), None);
    assert_eq!(other.message(), None);
    assert!(RequestMeta::default().elapsed().is_none());
}

#[test]
fn attributes_are_found() {
    let mut meta = RequestMeta::default();
    meta.set_attribute("k", "v");
    meta.set_attribute("k", "w");
    assert_eq!(meta.get_attribute("k"), Some("w"));
    assert_eq!(meta.get_attribute("x"), None);
}

#[test]
fn responses_know_their_kind() {
    assert!(SmppResponse::reject(1, Status::Throttled).is_reject());
    assert!(!SmppResponse::reject(1, Status::Throttled).is_continue());
    match SmppResponse::reject_with_reason(2, Status::SystemError, "why") {
        SmppResponse::Reject { sequence, status, reason } => {
            assert_eq!(sequence, 2);
            assert_eq!(status, Status::SystemError);
            assert_eq!(reason.as_deref(), Some("why"));
        }
        _ => panic!("expected a refusal"),
    }
    assert!(SmppResponse::continue_with(SmppRequest::new(Pdu::Unbind, 1)).is_continue());
}

// Credentials

#[test]
fn test_in_memory_store() {
    let mut store = InMemoryCredentialStore::new();
    store.add(Credentials::new("test", "password123"));

    assert!(store.validate("test", "password123").is_some());
    assert!(store.validate("test", "wrong").is_none());
    assert!(store.validate("unknown", "password123").is_none());
    assert!(store.get("test").is_some());
}

fn client(system_id: &str) -> ClientConfig {
    ClientConfig {
        system_id: system_id.to_string(),
        password: "pw".to_string(),
        system_type: None,
        allowed_bind_types: vec![BindType::Receiver],
        allowed_sources: vec!["ACME".to_string()],
        allowed_ips: vec!["10.0.0.0/8".to_string(), "192.168.1.5/32".to_string(), "192.168.1.6".to_string(), "bad".to_string()],
        max_connections: Some(3),
        rate_limit: Some(50),
        enabled: true,
    }
}

#[test]
fn configured_credentials_hold_their_limits() {
    let creds = Credentials::from_config(&client("c"));
    assert!(creds.is_bind_allowed(BindType::Receiver));
    assert!(!creds.is_bind_allowed(BindType::Transceiver));
    let ip = |text: &str| IpAddr::parse(text).unwrap();
    assert!(creds.is_ip_allowed(&ip("10.200.3.4")));
    assert!(creds.is_ip_allowed(&ip("192.168.1.5")));
    assert!(!creds.is_ip_allowed(&ip("192.168.1.6")));
    assert!(!creds.is_ip_allowed(&ip("::1")));
    assert!(creds.is_source_allowed("ACME"));
    assert!(!creds.is_source_allowed("OTHER"));
    let open = Credentials::new("a", "b");
    assert!(open.is_bind_allowed(BindType::Transmitter));
    assert!(open.is_ip_allowed(&ip("8.8.8.8")));
    assert!(open.is_source_allowed("any"));
    let limited =
        Credentials::new("a", "b").with_allowed_sources(vec!["X".to_string()]).with_rate_limit(9);
    assert_eq!(limited.rate_limit, Some(9));
    assert!(!limited.is_source_allowed("Y"));
}

#[test]
fn stores_from_the_configuration() {
    let mut off = client("off");
    off.enabled = false;
    let store = ConfigCredentialStore::from_config(&vec![client("on"), off]);
    assert!(!store.is_empty());
    assert!(store.validate("on", "pw").is_some());
    assert!(store.validate("on", "no").is_none());
    assert!(store.validate("off", "pw").is_none());
    assert!(store.get("off").is_none());
    assert!(ConfigCredentialStore::from_config(&vec![]).is_empty());
    assert!(OpenCredentialStore.validate("anyone", "anything").is_some());
}

#[test]
fn binds_pass_the_authentication_filter() {
    let submitted = SmppRequest::new(Pdu::SubmitSm(submit("A", "B", b"")), 4);
    assert!(AuthFilter::call(submitted).is_reject());
    let meta = RequestMeta::new().with_system_id("esme");
    let known = SmppRequest::with_meta(Pdu::SubmitSm(submit("A", "B", b"")), 4, meta);
    assert!(AuthFilter::call(known).is_continue());
}

// Rate limits

#[test]
fn test_token_bucket() {
    let mut bucket = TokenBucket::new(10, 5, at(0));

    assert!(bucket.try_acquire_at(&at(0)));
    assert!(bucket.try_acquire_at(&at(0)));
    assert!(bucket.try_acquire_at(&at(0)));
    assert!(bucket.try_acquire_at(&at(0)));
    assert!(bucket.try_acquire_at(&at(0)));

    assert!(!bucket.try_acquire_at(&at(0)));
}

#[test]
fn buckets_fill_again() {
    let mut bucket = TokenBucket::new(10, 5, at(0));
    for _ in 0..5 {
        assert!(bucket.try_acquire_at(&at(0)));
    }
    assert!(!bucket.try_acquire_at(&at(99)));
    assert!(bucket.try_acquire_at(&at(200)));
    assert!(bucket.available() <= 5);
    assert!(bucket.try_acquire_at(&at(100_000)));
    assert_eq!(bucket.available(), 4);
}

/// What double precision makes of the tokens of a time.
fn in_doubles(nanos: u128, rate: u32) -> u64 {
    let elapsed =
        std::time::Duration::new((nanos / 1_000_000_000) as u64, (nanos % 1_000_000_000) as u32);
    (elapsed.as_secs_f64() * f64::from(rate)) as u64
}

#[test]
fn refills_are_counted_in_double_precision() {
    assert_eq!(seconds_times_up_to(290_000_000, 100), 28);
    assert_eq!(seconds_times_up_to(0, 100), 0);
    assert_eq!(seconds_times_up_to(1, 0), 0);
    assert_eq!(seconds_times_up_to(1_000_000_000, u32::MAX), u32::MAX as u64);
    assert_eq!(seconds_times_up_to(1_000_000_000_000_000, u32::MAX), ENOUGH);
    let mut s: u64 = 0x9e37_79b9_7f4a_7c15;
    let mut next = || {
        s ^= s << 13;
        s ^= s >> 7;
        s ^= s << 17;
        s
    };
    for round in 0..200_000u64 {
        let nanos = match round % 4 {
            0 => (next() % 1000) * 10_000_000,
            1 => next() % 1_000_000_000,
            2 => next() % 100_000_000_000,
            _ => next() >> (next() % 60),
        } as u128;
        let rate = match round % 3 {
            0 => (next() % 1000) as u32,
            1 => (next() % 100_000) as u32,
            _ => (next() >> 32) as u32,
        };
        let wanted = in_doubles(nanos, rate).min(ENOUGH);
        assert_eq!(seconds_times_up_to(nanos, rate), wanted, "{} ns at {}", nanos, rate);
    }

    let mut bucket = TokenBucket::new(100, 1000, at(0));
    for _ in 0..1000 {
        assert!(bucket.try_acquire_at(&at(0)));
    }
    assert!(bucket.try_acquire_at(&at(290)));
    assert_eq!(bucket.available(), 27);
}

#[test]
fn test_rate_limiter_store() {
    let config = RateLimitConfig::new(100).with_burst(2);
    let mut store = RateLimiterStore::new(config);

    assert!(store.try_acquire_at("client1", &at(0)));
    assert!(store.try_acquire_at("client1", &at(0)));
    assert!(!store.try_acquire_at("client1", &at(0)));

    assert!(store.try_acquire_at("client2", &at(0)));
    let mut fresh = RateLimiterStore::new(RateLimitConfig::default());
    assert!(fresh.try_acquire("client1"));
}

#[test]
fn throttled_requests_are_refused() {
    let mut filter =
        RateLimitFilter { store: RateLimiterStore::new(RateLimitConfig::new(1).with_burst(1)) };
    let request = || {
        SmppRequest::with_meta(
            Pdu::SubmitSm(submit("A", "B", b"")),
            9,
            RequestMeta::new().with_system_id("esme"),
        )
    };
    assert!(filter.call_at(request(), &at(0)).is_continue());
    match filter.call_at(request(), &at(0)) {
        SmppResponse::Reject { sequence, status, .. } => {
            assert_eq!(sequence, 9);
            assert_eq!(status, Status::SystemError);
        }
        _ => panic!("expected a refusal"),
    }
}

// Chains

#[test]
fn test_passthrough() {
    let mut chain = FilterChainBuilder::new().build();
    let request = SmppRequest::new(Pdu::EnquireLink, 1);
    let response = chain.process(request);
    assert!(response.is_continue());
}

#[test]
fn test_with_rate_limit() {
    let mut chain = FilterChainBuilder::new().with_rate_limit(RateLimitConfig::new(100)).build();

    let request = SmppRequest::new(Pdu::EnquireLink, 1);
    let response = chain.process(request);
    assert!(response.is_continue());
}

#[test]
fn chains_authenticate_first() {
    let mut chain = FilterChainBuilder::default()
        .with_auth()
        .with_rate_limit(RateLimitConfig::new(1).with_burst(1))
        .build();
    let stranger = || SmppRequest::new(Pdu::SubmitSm(submit("A", "B", b"")), 1);
    let known = || {
        SmppRequest::with_meta(
            Pdu::SubmitSm(submit("A", "B", b"")),
            1,
            RequestMeta::new().with_system_id("esme"),
        )
    };
    assert!(chain.process_at(stranger(), &at(0)).is_reject());
    assert!(chain.process_at(known(), &at(0)).is_continue());
    assert!(chain.process_at(known(), &at(0)).is_reject());
    assert!(PassthroughService.call(stranger()).is_continue());
}

// Firewall

#[test]
fn test_keyword_blocking() {
    let mut firewall = Firewall::new(FirewallConfig::default());
    firewall.add_rule(FirewallRule::block_keyword("spam", "free money"));

    let ctx = test_ctx("Get FREE MONEY now!", "SENDER", "+1234567890");
    let result = firewall.check(&ctx);
    assert!(!result.allowed);
    assert_eq!(result.matched_rule, Some("spam".to_string()));
}

#[test]
fn test_pattern_blocking() {
    let mut firewall = Firewall::new(FirewallConfig::default());
    firewall.add_rule(FirewallRule::block_pattern("urls", r"https?://\S+").unwrap());

    let ctx = test_ctx("Visit https://spam.com for deals", "SENDER", "+1234567890");
    let result = firewall.check(&ctx);
    assert!(!result.allowed);
    assert!(firewall.check(&test_ctx("no link", "SENDER", "+1234567890")).allowed);
    assert!(FirewallRule::block_pattern("bad", "(").is_none());
}

#[test]
fn test_sender_blocking() {
    let mut firewall = Firewall::new(FirewallConfig::default());
    firewall.add_rule(FirewallRule::block_sender("blocked_sender", "SPAMMER"));

    let ctx = test_ctx("Hello", "SPAMMER", "+1234567890");
    assert!(!firewall.check(&ctx).allowed);

    let ctx = test_ctx("Hello", "LEGITCO", "+1234567890");
    assert!(firewall.check(&ctx).allowed);
}

#[test]
fn test_destination_deny_list() {
    let mut firewall = Firewall::new(FirewallConfig::default());
    firewall.add_rule(FirewallRule::deny_destinations(
        "blocked_numbers",
        vec!["+1234567890".to_string(), "+0987654321".to_string()],
    ));

    let ctx = test_ctx("Hello", "SENDER", "+1234567890");
    assert!(!firewall.check(&ctx).allowed);

    let ctx = test_ctx("Hello", "SENDER", "+1111111111");
    assert!(firewall.check(&ctx).allowed);
}

#[test]
fn test_esme_settings() {
    let mut firewall = Firewall::new(FirewallConfig::default());

    let mut settings = EsmeFirewallSettings::default();
    settings.destination_deny_list.insert("+blocked_number".to_string());
    firewall.set_esme_settings("test_esme", settings);

    let ctx = test_ctx("Hello", "SENDER", "+blocked_number");
    assert!(!firewall.check(&ctx).allowed);

    let mut ctx2 = test_ctx("Hello", "SENDER", "+blocked_number");
    ctx2.system_id = "other_esme".to_string();
    assert!(firewall.check(&ctx2).allowed);
    assert!(firewall.get_esme_settings("test_esme").is_some());
    assert!(firewall.get_esme_settings("other_esme").is_none());
}

#[test]
fn test_esme_allow_list() {
    let mut firewall = Firewall::new(FirewallConfig::default());

    let mut settings = EsmeFirewallSettings::default();
    settings.destination_allow_list =
        Some(StringSet::from_vec(vec!["+allowed_number".to_string()]));
    firewall.set_esme_settings("test_esme", settings);

    let ctx = test_ctx("Hello", "SENDER", "+allowed_number");
    assert!(firewall.check(&ctx).allowed);

    let ctx = test_ctx("Hello", "SENDER", "+other_number");
    assert!(!firewall.check(&ctx).allowed);
}

#[test]
fn test_premium_rate_blocking() {
    let config = FirewallConfig { block_premium_rate: true, ..Default::default() };
    let mut firewall = Firewall::new(config);

    let ctx = test_ctx("Hello", "SENDER", "0900123456");
    let result = firewall.check(&ctx);
    assert!(!result.allowed);
    assert_eq!(result.matched_rule, Some("premium_rate_blocked".to_string()));
}

#[test]
fn test_message_length() {
    let config = FirewallConfig {
        max_message_length: Some(160),
        min_message_length: Some(1),
        ..Default::default()
    };
    let mut firewall = Firewall::new(config);

    let ctx = test_ctx(&"a".repeat(200), "SENDER", "+1234567890");
    assert!(!firewall.check(&ctx).allowed);

    let ctx = test_ctx("", "SENDER", "+1234567890");
    assert!(!firewall.check(&ctx).allowed);

    let ctx = test_ctx("Hello", "SENDER", "+1234567890");
    assert!(firewall.check(&ctx).allowed);
}

#[test]
fn test_esm_class_filtering() {
    let mut config = FirewallConfig::default();
    config.denied_esm_class.insert(0x40);

    let mut firewall = Firewall::new(config);

    let mut ctx = test_ctx("Hello", "SENDER", "+1234567890");
    ctx.protocol.esm_class = Some(0x40);

    assert!(!firewall.check(&ctx).allowed);
}

#[test]
fn test_rule_priority() {
    let mut firewall = Firewall::new(FirewallConfig::default());

    firewall.add_rule(FirewallRule::block_keyword("block_all", "test").with_priority(0));

    firewall.add_rule(FirewallRule {
        name: "allow_vip".to_string(),
        rule_type: RuleType::SenderId("VIP".to_string()),
        action: FirewallAction::Allow,
        priority: 100,
        enabled: true,
        description: None,
        esme_id: None,
    });

    let ctx = test_ctx("test message", "VIP", "+1234567890");
    assert!(firewall.check(&ctx).allowed);

    let ctx = test_ctx("test message", "REGULAR", "+1234567890");
    assert!(!firewall.check(&ctx).allowed);
}

#[test]
fn test_event_logging() {
    let mut firewall = Firewall::new(FirewallConfig::default());

    let ctx = test_ctx("Hello", "SENDER", "+1234567890");
    firewall.check(&ctx);

    let stats = firewall.event_log().stats();
    assert_eq!(stats.allowed, 1);
}

#[test]
fn test_combined_rules() {
    let mut firewall = Firewall::new(FirewallConfig::default());

    firewall.add_rule(FirewallRule {
        name: "promo_premium".to_string(),
        rule_type: RuleType::All(vec![
            RuleType::Keyword("promo".to_string()),
            RuleType::DestinationPrefix("0900".to_string()),
        ]),
        action: FirewallAction::Block(Status::InvalidDestAddress),
        priority: 10,
        enabled: true,
        description: None,
        esme_id: None,
    });

    let ctx = test_ctx("Get this promo deal!", "SENDER", "0900123456");
    assert!(!firewall.check(&ctx).allowed);

    let ctx = test_ctx("Get this promo deal!", "SENDER", "+1234567890");
    assert!(firewall.check(&ctx).allowed);
}

#[test]
fn keywords_fold_the_case_of_every_letter() {
    let rule = RuleType::Keyword("\u{c9}T\u{c9}".to_string());
    let now = UtcTime { secs: 0, nanos: 0 };
    assert!(rule.matches_at(&test_ctx("bel \u{e9}t\u{e9}!", "S", "D"), &now));
    assert!(!rule.matches_at(&test_ctx("bel ete!", "S", "D"), &now));
}

#[test]
fn rules_of_several_parts() {
    let now = UtcTime { secs: 0, nanos: 0 };
    let ctx = test_ctx("hello", "+2588", "+2584");
    let yes = || RuleType::SourcePrefix("+258".to_string());
    let no = || RuleType::DestinationPrefix("+1".to_string());
    assert!(RuleType::Any(vec![no(), yes()]).matches_at(&ctx, &now));
    assert!(!RuleType::Any(vec![]).matches_at(&ctx, &now));
    assert!(RuleType::All(vec![]).matches_at(&ctx, &now));
    assert!(!RuleType::All(vec![yes(), no()]).matches_at(&ctx, &now));
    let params = ProtocolParams { data_coding: Some(8), ..ProtocolParams::default() };
    assert!(!RuleType::Protocol(params).matches_at(&ctx, &now));
    let listed = RuleType::SourceList(StringSet::from_vec(vec!["+2588".to_string()]));
    assert!(listed.matches_at(&ctx, &now));
    assert!(listed.matches(&ctx));
}

#[test]
fn protocol_rules_compare_every_parameter() {
    let now = UtcTime { secs: 0, nanos: 0 };
    let mut ctx = test_ctx("hello", "S", "D");
    ctx.protocol = ProtocolParams {
        esm_class: Some(1),
        protocol_id: Some(2),
        data_coding: Some(3),
        source_addr_ton: Some(4),
        source_addr_npi: Some(5),
        dest_addr_ton: Some(6),
        dest_addr_npi: Some(7),
    };
    let any = ProtocolParams::default();
    assert!(RuleType::Protocol(any).matches_at(&ctx, &now));
    assert!(RuleType::Protocol(ctx.protocol).matches_at(&ctx, &now));
    for wrong in [
        ProtocolParams { esm_class: Some(9), ..any },
        ProtocolParams { protocol_id: Some(9), ..any },
        ProtocolParams { data_coding: Some(9), ..any },
        ProtocolParams { source_addr_ton: Some(9), ..any },
        ProtocolParams { source_addr_npi: Some(9), ..any },
        ProtocolParams { dest_addr_ton: Some(9), ..any },
        ProtocolParams { dest_addr_npi: Some(9), ..any },
    ] {
        assert!(!RuleType::Protocol(wrong).matches_at(&ctx, &now));
    }
}

#[test]
fn time_windows_follow_their_zone() {
    // 1970-01-01 was a Thursday; Maputo is two hours ahead of UTC.
    let window = TimeWindow::new("09:00", "17:00", "Africa/Maputo").unwrap();
    let at_utc = |hour: i64| UtcTime { secs: hour * 3600, nanos: 0 };
    assert!(!window.is_active_at(&at_utc(6)));
    assert!(window.is_active_at(&at_utc(7)));
    assert!(window.is_active_at(&at_utc(15)));
    assert!(!window.is_active_at(&at_utc(16)));
    let night = TimeWindow::new("22:00", "06:00", "UTC").unwrap();
    assert!(night.is_active_at(&at_utc(23)));
    assert!(night.is_active_at(&at_utc(3)));
    assert!(!night.is_active_at(&at_utc(12)));
    let weekend = TimeWindow::new("00:00", "23:59", "UTC")
        .unwrap()
        .with_days(vec![Weekday::Sat, Weekday::Sun]);
    assert!(!weekend.is_active_at(&at_utc(12)));
    assert!(weekend.is_active_at(&at_utc(48 + 12)));
    assert!(TimeWindow::new("25:00", "17:00", "UTC").is_none());
    assert!(TimeWindow::new("00:00", "23:59", "Nowhere/Land").is_none());
}

#[test]
fn alarms_go_on() {
    let mut firewall = Firewall::new(FirewallConfig::default());
    let now = UtcTime { secs: 5, nanos: 0 };
    firewall.add_rule(
        FirewallRule::block_keyword("alarm", "a").with_action(FirewallAction::Alarm).with_priority(2),
    );
    firewall.add_rule(
        FirewallRule::block_keyword("stop", "a").with_priority(1).with_description("stops"),
    );
    let result = firewall.check_at(&test_ctx("a", "S", "D"), &now);
    assert!(!result.allowed);
    assert_eq!(result.matched_rule.as_deref(), Some("stop"));
    let stats = firewall.event_log().stats();
    assert_eq!((stats.alarms, stats.blocked), (1, 1));
    assert_eq!(firewall.event_log().blocked_count(), 1);
    let recent = firewall.event_log().recent(10);
    assert_eq!(recent.len(), 2);
    assert_eq!(firewall.event_log().by_type(FirewallEventType::Alarm, 10).len(), 1);
    assert_eq!(recent[0].timestamp, now);
}

#[test]
fn limits_come_before_rules() {
    let config = FirewallConfig { max_message_length: Some(3), ..Default::default() };
    let mut firewall = Firewall::new(config);
    firewall.add_rule(
        FirewallRule::block_keyword("vip", "a").with_action(FirewallAction::Allow).with_priority(9),
    );
    let result = firewall.check(&test_ctx("aaaa", "S", "D"));
    assert_eq!(result.matched_rule.as_deref(), Some("message_too_long"));
    assert_eq!(result.status, Some(Status::InvalidMessageLength));
}

#[test]
fn rules_of_one_priority_stay_in_order() {
    let mut firewall = Firewall::new(FirewallConfig::default())
        .with_rules(vec![FirewallRule::block_keyword("a", "x"), FirewallRule::block_keyword("b", "x")]);
    let result = firewall.check(&test_ctx("x", "S", "D"));
    assert_eq!(result.matched_rule.as_deref(), Some("a"));
}

#[test]
fn foreign_countries_are_blocked() {
    let mut config = FirewallConfig { block_international: true, ..Default::default() };
    config.allowed_international.insert("258".to_string());
    let mut firewall = Firewall::new(config);
    assert!(firewall.check(&test_ctx("x", "S", "+258841234567")).allowed);
    let result = firewall.check(&test_ctx("x", "S", "+27821234567"));
    assert_eq!(result.matched_rule.as_deref(), Some("international_blocked"));
    assert!(firewall.check(&test_ctx("x", "S", "0821234567")).allowed);
}

#[test]
fn quarantined_messages_are_held() {
    let mut firewall = Firewall::new(FirewallConfig::default());
    firewall.add_rule(FirewallRule::block_keyword("q", "x").with_action(FirewallAction::Quarantine));
    let result = firewall.check(&test_ctx("x", "S", "D"));
    assert!(!result.allowed);
    assert_eq!(result.status, Some(Status::SystemError));
    assert_eq!(firewall.event_log().stats().quarantined, 1);
}

#[test]
fn the_log_forgets_the_oldest() {
    let config = FirewallConfig { max_log_events: 2, ..Default::default() };
    let mut firewall = Firewall::new(config);
    for text in ["one", "two", "three"] {
        firewall.check(&test_ctx(text, "S", "D"));
    }
    let recent = firewall.event_log().recent(10);
    assert_eq!(recent.len(), 2);
    assert!(recent.iter().all(|e| e.content_preview != "one"));
}

#[test]
fn rules_for_one_client() {
    let mut firewall = Firewall::new(FirewallConfig::default());
    firewall.add_rule(FirewallRule::block_keyword("k", "x").for_esme("someone"));
    assert!(firewall.check(&test_ctx("x", "S", "D")).allowed);
    let mut ctx = test_ctx("x", "S", "D");
    ctx.system_id = "someone".to_string();
    assert!(!firewall.check(&ctx).allowed);
}

#[test]
fn the_firewall_filter_answers() {
    let mut firewall = Firewall::new(FirewallConfig::default());
    firewall.add_rule(FirewallRule::block_keyword("spam", "win"));
    let mut filter = FirewallFilter { firewall };
    let request = |text: &[u8]| SmppRequest::new(Pdu::SubmitSm(submit("A", "B", text)), 3);
    assert!(filter.call(request(b"hello")).is_continue());
    match filter.call(request(b"you WIN")) {
        SmppResponse::Reject { sequence, reason, .. } => {
            assert_eq!(sequence, 3);
            assert_eq!(reason.as_deref(), Some("spam"));
        }
        _ => panic!("expected a refusal"),
    }
    assert!(filter.call(SmppRequest::new(Pdu::EnquireLink, 1)).is_continue());
}

#[test]
fn broken_bytes_are_replaced() {
    let ctx = MessageContext::from_submit(&submit("A", "B", &[b'o', 0xff, b'k']));
    assert_eq!(ctx.content, "o\u{fffd}k");
}
