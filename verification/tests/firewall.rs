use smppd::collections::StringMap;
use smppd::firewall::context::{Effect, EvaluationContext, EvaluationResult};
use smppd::firewall::engine::{
    compile_condition, evaluate_condition, rate_entry_text, CompiledFirewall, Moment,
    RateLimitState,
};
use smppd::firewall::types::{
    ActionConfig, ChainConfig, ChainType, ConditionConfig, ContentMatchType, ContentMatcherConfig,
    FirewallConfig, FirewallError, IpMatchType, IpMatcherConfig, LogLevel, Policy, RateKey,
    RuleConfig, StringMatchType, StringMatcherConfig,
};
use smppd::net::IpAddr;
use smppd::time::{Duration, Instant, UtcTime};

fn context(content: &str) -> EvaluationContext {
    EvaluationContext::received_at(
        "+258841234567",
        "+258821234567",
        "ACME",
        content,
        UtcTime { secs: 0, nanos: 0 },
    )
}

fn moment(secs: u64) -> Moment {
    Moment {
        clock: Instant { nanos: secs as u128 * 1_000_000_000 },
        utc: UtcTime { secs: secs as i64, nanos: 0 },
    }
}

fn contains(text: &str, case_insensitive: bool, negate: bool) -> ConditionConfig {
    ConditionConfig::Content {
        matcher: ContentMatcherConfig {
            match_type: ContentMatchType::Contains,
            value: Some(text.to_string()),
            pattern: None,
            list: None,
            case_insensitive,
            negate,
        },
    }
}

fn source(match_type: StringMatchType, text: &str) -> ConditionConfig {
    ConditionConfig::Source {
        matcher: StringMatcherConfig {
            match_type,
            value: Some(text.to_string()),
            pattern: Some(text.to_string()),
            list: Some(text.to_string()),
            negate: false,
        },
    }
}

fn rule(name: &str, conditions: Vec<ConditionConfig>, action: ActionConfig) -> RuleConfig {
    RuleConfig { name: Some(name.to_string()), enabled: true, conditions, action }
}

fn chain(name: &str, priority: i32, policy: Policy, rules: Vec<RuleConfig>) -> ChainConfig {
    ChainConfig { name: name.to_string(), chain_type: ChainType::Input, priority, policy, rules }
}

fn firewall(chains: Vec<ChainConfig>) -> FirewallConfig {
    FirewallConfig {
        enabled: true,
        default_policy: Policy::Accept,
        lists: StringMap::new(),
        chains,
    }
}

/// What a condition says of a context, with one list `list`.
fn holds(config: &ConditionConfig, ctx: &EvaluationContext, at: &Moment) -> bool {
    let mut lists = StringMap::new();
    lists.insert(
        "list".to_string(),
        vec!["+258841234567".to_string(), "offer".to_string(), "10.0.0.1".to_string()],
    );
    let mut rates: StringMap<RateLimitState> = StringMap::new();
    let condition = match compile_condition(config) {
        Ok(c) => c,
        Err(_) => panic!("expected a condition"),
    };
    evaluate_condition(&condition, ctx, &lists, &mut rates, at)
}

#[test]
fn test_context_builder() {
    let ctx = EvaluationContext::new("+258841234567", "+258821234567", "ACME", "Hello")
        .with_sender_id("ACME")
        .with_esm_class(3)
        .with_data_coding(0)
        .with_tls(true);

    assert_eq!(ctx.source, "+258841234567");
    assert_eq!(ctx.destination, "+258821234567");
    assert_eq!(ctx.system_id, "ACME");
    assert_eq!(ctx.content, "Hello");
    assert_eq!(ctx.sender_id, Some("ACME".to_string()));
    assert_eq!(ctx.esm_class, 3);
    assert!(ctx.tls_enabled);
}

#[test]
fn test_rate_key() {
    let ctx = EvaluationContext::new("+258841234567", "+258821234567", "ACME", "Hello")
        .with_sender_id("SENDER");

    assert_eq!(ctx.get_rate_key(&RateKey::SystemId), "ACME");
    assert_eq!(ctx.get_rate_key(&RateKey::Source), "+258841234567");
    assert_eq!(ctx.get_rate_key(&RateKey::SenderId), "SENDER");
}

#[test]
fn rate_keys_of_the_client() {
    let ctx = context("x").with_client_ip(IpAddr::V4(0x0a000001));
    assert_eq!(ctx.get_rate_key(&RateKey::ClientIp), "10.0.0.1");
    assert_eq!(ctx.get_rate_key(&RateKey::Destination), "+258821234567");
    assert!(rate_entry_text(&ctx, &RateKey::ClientIp).contains("10.0.0.1"));
}

#[test]
fn test_evaluation_result_terminal() {
    assert!(EvaluationResult::Accept.is_terminal());
    assert!(EvaluationResult::Drop.is_terminal());
    assert!(EvaluationResult::Reject { status: 8, reason: None }.is_terminal());
    assert!(!EvaluationResult::Continue.is_terminal());
}

#[test]
fn test_simple_firewall() {
    let config = firewall(vec![chain(
        "input",
        0,
        Policy::Accept,
        vec![rule("block_spam", vec![contains("SPAM", true, false)], ActionConfig::Drop)],
    )]);

    let mut firewall = match CompiledFirewall::from_config(&config) {
        Ok(f) => f,
        Err(_) => panic!("expected a firewall"),
    };

    let ctx = EvaluationContext::new("+258841234567", "+258821234567", "ACME", "Hello");
    let result = firewall.evaluate(&ctx);
    assert!(matches!(result, EvaluationResult::Accept));

    let ctx =
        EvaluationContext::new("+258841234567", "+258821234567", "ACME", "This is SPAM message");
    let result = firewall.evaluate(&ctx);
    assert!(matches!(result, EvaluationResult::Drop));
    let stats = firewall.get_stats();
    assert!(stats.enabled);
    assert_eq!((stats.chains, stats.rules, stats.lists), (1, 1, 0));
    assert_eq!(stats.rule_hits.get("block_spam"), Some(&1));
}

#[test]
fn conditions_on_texts() {
    let ctx = context("special OFFER");
    let at = moment(0);
    assert!(holds(&source(StringMatchType::Exact, "+258841234567"), &ctx, &at));
    assert!(!holds(&source(StringMatchType::Exact, "+25884"), &ctx, &at));
    assert!(holds(&source(StringMatchType::Prefix, "+25884"), &ctx, &at));
    assert!(holds(&source(StringMatchType::Suffix, "4567"), &ctx, &at));
    assert!(holds(&source(StringMatchType::Contains, "8412"), &ctx, &at));
    assert!(holds(&source(StringMatchType::Regex, r"^\+258\d{9}$"), &ctx, &at));
    assert!(!holds(&source(StringMatchType::Regex, r"^258"), &ctx, &at));
    assert!(holds(&source(StringMatchType::List, "list"), &ctx, &at));
    assert!(!holds(&source(StringMatchType::List, "absent"), &ctx, &at));
    assert!(holds(&contains("offer", true, false), &ctx, &at));
    assert!(!holds(&contains("offer", false, false), &ctx, &at));
    assert!(holds(&contains("offer", false, true), &ctx, &at));
    let keywords = |case_insensitive: bool| ConditionConfig::Content {
        matcher: ContentMatcherConfig {
            match_type: ContentMatchType::Keywords,
            value: None,
            pattern: None,
            list: Some("list".to_string()),
            case_insensitive,
            negate: false,
        },
    };
    assert!(holds(&keywords(true), &ctx, &at));
    assert!(!holds(&keywords(false), &ctx, &at));
}

#[test]
fn conditions_on_numbers() {
    let ctx = context("abc").with_esm_class(0x43).with_protocol_id(1).with_data_coding(8).with_tls(true);
    let at = moment(0);
    let length = |min, max, negate| ConditionConfig::ContentLength { min, max, negate };
    assert!(holds(&length(Some(3), Some(3), false), &ctx, &at));
    assert!(!holds(&length(Some(4), None, false), &ctx, &at));
    assert!(holds(&length(None, Some(2), true), &ctx, &at));
    assert!(holds(&ConditionConfig::EsmClass { value: 0x40, mask: Some(0xc0) }, &ctx, &at));
    assert!(!holds(&ConditionConfig::EsmClass { value: 0x40, mask: None }, &ctx, &at));
    assert!(holds(&ConditionConfig::ProtocolId { value: 1 }, &ctx, &at));
    assert!(holds(&ConditionConfig::DataCoding { value: 8 }, &ctx, &at));
    assert!(holds(&ConditionConfig::TlsEnabled { value: true }, &ctx, &at));
    assert!(!holds(&ConditionConfig::TlsEnabled { value: false }, &ctx, &at));
}

#[test]
fn conditions_on_addresses() {
    let at = moment(0);
    let test = |match_type, value: &str| ConditionConfig::ClientIp {
        matcher: IpMatcherConfig {
            match_type,
            value: Some(value.to_string()),
            list: Some(value.to_string()),
            negate: false,
        },
    };
    let ctx = context("").with_client_ip(IpAddr::V4(0x0a000001));
    assert!(holds(&test(IpMatchType::Exact, "10.0.0.1"), &ctx, &at));
    assert!(!holds(&test(IpMatchType::Exact, "10.0.0.2"), &ctx, &at));
    assert!(holds(&test(IpMatchType::Cidr, "10.0.0.0/24"), &ctx, &at));
    assert!(!holds(&test(IpMatchType::Cidr, "10.0.1.0/24"), &ctx, &at));
    assert!(holds(&test(IpMatchType::List, "list"), &ctx, &at));
    assert!(compile_condition(&test(IpMatchType::Cidr, "10.0.0.0/40")).is_err());
    assert!(compile_condition(&test(IpMatchType::Exact, "ten")).is_err());
}

#[test]
fn conditions_on_the_time() {
    let ctx = context("");
    let span = |start: &str, end: &str| ConditionConfig::Time {
        start: start.to_string(),
        end: end.to_string(),
        timezone: None,
    };
    assert!(holds(&span("09:00", "17:00"), &ctx, &moment(10 * 3600)));
    assert!(!holds(&span("09:00", "17:00"), &ctx, &moment(8 * 3600)));
    assert!(holds(&span("22:00", "06:00"), &ctx, &moment(23 * 3600)));
    // 1970-01-01 was a Thursday, four days after Sunday.
    assert!(holds(&ConditionConfig::DayOfWeek { days: vec![4] }, &ctx, &moment(0)));
    assert!(!holds(&ConditionConfig::DayOfWeek { days: vec![3] }, &ctx, &moment(0)));
    assert!(compile_condition(&span("9h", "17:00")).is_err());
}

#[test]
fn combined_conditions() {
    let ctx = context("abc");
    let at = moment(0);
    let yes = || contains("a", false, false);
    let no = || contains("z", false, false);
    let not = |c| ConditionConfig::Not { condition: Box::new(c) };
    assert!(holds(&not(no()), &ctx, &at));
    assert_eq!(holds(&not(not(yes())), &ctx, &at), holds(&yes(), &ctx, &at));
    assert!(holds(&ConditionConfig::And { conditions: vec![] }, &ctx, &at));
    assert!(!holds(&ConditionConfig::And { conditions: vec![yes(), no()] }, &ctx, &at));
    assert!(holds(&ConditionConfig::Or { conditions: vec![no(), yes()] }, &ctx, &at));
    assert!(!holds(&ConditionConfig::Or { conditions: vec![] }, &ctx, &at));
}

#[test]
fn rates_hold_above_their_threshold() {
    let config = ConditionConfig::Rate {
        key: RateKey::SystemId,
        window: Duration::from_secs(10),
        threshold: 2,
    };
    let condition = match compile_condition(&config) {
        Ok(c) => c,
        Err(_) => panic!("expected a condition"),
    };
    let lists = StringMap::new();
    let mut rates = StringMap::new();
    let mut ask = |secs: u64| {
        evaluate_condition(&condition, &context("x"), &lists, &mut rates, &moment(secs))
    };
    assert!(!ask(0));
    assert!(!ask(1));
    assert!(ask(2));
    assert!(ask(9));
    assert!(!ask(20));
}

#[test]
fn faulty_conditions_are_refused() {
    let nothing = ConditionConfig::Source {
        matcher: StringMatcherConfig {
            match_type: StringMatchType::Prefix,
            value: None,
            pattern: None,
            list: None,
            negate: false,
        },
    };
    assert!(matches!(compile_condition(&nothing), Err(FirewallError::InvalidCondition(_))));
    assert!(matches!(
        compile_condition(&source(StringMatchType::Regex, "(")),
        Err(FirewallError::RegexError(_))
    ));
    let plugin = ConditionConfig::Plugin { name: "p".to_string(), params: String::new() };
    assert!(compile_condition(&plugin).is_err());
}

#[test]
fn chains_run_by_priority() {
    let reject = ActionConfig::Reject { status: 88, reason: Some("no".to_string()) };
    let config = firewall(vec![
        chain("late", 10, Policy::Accept, vec![rule("a", vec![], ActionConfig::Drop)]),
        chain("early", 1, Policy::Accept, vec![rule("b", vec![], reject)]),
    ]);
    let mut fw = match CompiledFirewall::from_config(&config) {
        Ok(f) => f,
        Err(_) => panic!("expected a firewall"),
    };
    match fw.evaluate_at(&context("x"), &moment(0)) {
        EvaluationResult::Reject { status, reason } => {
            assert_eq!(status, 88);
            assert_eq!(reason.as_deref(), Some("no"));
        }
        _ => panic!("expected a refusal"),
    }
    let stats = fw.get_stats();
    assert_eq!(stats.rule_hits.get("b"), Some(&1));
    assert_eq!(stats.rule_hits.get("a"), Some(&0));
}

#[test]
fn chains_of_one_priority_stay_in_order() {
    let config = firewall(vec![
        chain("a", 5, Policy::Accept, vec![rule("a", vec![], ActionConfig::Quarantine)]),
        chain("b", 5, Policy::Accept, vec![rule("b", vec![], ActionConfig::Drop)]),
    ]);
    let mut fw = match CompiledFirewall::from_config(&config) {
        Ok(f) => f,
        Err(_) => panic!("expected a firewall"),
    };
    for _ in 0..2 {
        assert!(matches!(fw.evaluate_at(&context("x"), &moment(0)), EvaluationResult::Quarantine));
    }
    assert_eq!(fw.get_stats().rule_hits.get("a"), Some(&2));
}

#[test]
fn logging_goes_on_to_the_next_action() {
    let log = ActionConfig::Log {
        level: LogLevel::Info,
        message: None,
        then_action: Some(Box::new(ActionConfig::Quarantine)),
    };
    let config = firewall(vec![chain("c", 0, Policy::Drop, vec![rule("l", vec![], log)])]);
    let mut fw = match CompiledFirewall::from_config(&config) {
        Ok(f) => f,
        Err(_) => panic!("expected a firewall"),
    };
    assert!(matches!(fw.evaluate_at(&context("x"), &moment(0)), EvaluationResult::Quarantine));
}

#[test]
fn a_firewall_that_is_off_accepts() {
    let mut config = firewall(vec![chain(
        "c",
        0,
        Policy::Drop,
        vec![rule("d", vec![], ActionConfig::Drop)],
    )]);
    config.enabled = false;
    let mut fw = match CompiledFirewall::from_config(&config) {
        Ok(f) => f,
        Err(_) => panic!("expected a firewall"),
    };
    assert!(matches!(fw.evaluate_at(&context("x"), &moment(0)), EvaluationResult::Accept));
}

#[test]
fn loaded_lists_are_used() {
    let config = firewall(vec![chain(
        "c",
        0,
        Policy::Accept,
        vec![rule("l", vec![source(StringMatchType::List, "vip")], ActionConfig::Drop)],
    )]);
    let mut fw = match CompiledFirewall::from_config(&config) {
        Ok(f) => f,
        Err(_) => panic!("expected a firewall"),
    };
    assert!(matches!(fw.evaluate_at(&context("x"), &moment(0)), EvaluationResult::Accept));
    fw.load_list("vip", vec!["+258841234567".to_string()]);
    assert!(matches!(fw.evaluate_at(&context("x"), &moment(0)), EvaluationResult::Drop));
    assert_eq!(fw.get_stats().lists, 1);
}

fn compiled(chains: Vec<ChainConfig>) -> CompiledFirewall {
    match CompiledFirewall::from_config(&firewall(chains)) {
        Ok(f) => f,
        Err(_) => panic!("expected a firewall"),
    }
}

#[test]
fn times_are_read_in_their_zone() {
    let ctx = context("");
    let span = |zone: &str| ConditionConfig::Time {
        start: "09:00".to_string(),
        end: "17:00".to_string(),
        timezone: Some(zone.to_string()),
    };
    // Maputo is two hours ahead of UTC.
    assert!(holds(&span("Africa/Maputo"), &ctx, &moment(7 * 3600)));
    assert!(!holds(&span("Africa/Maputo"), &ctx, &moment(16 * 3600)));
    assert!(!holds(&span("UTC"), &ctx, &moment(7 * 3600)));
    assert!(holds(&span("UTC"), &ctx, &moment(16 * 3600)));
    assert!(!holds(&span("Nowhere"), &ctx, &moment(7 * 3600)));
    assert!(holds(&span("Nowhere"), &ctx, &moment(16 * 3600)));
}

#[test]
fn rate_limits_reject_when_exceeded() {
    let limit = ActionConfig::RateLimit {
        key: RateKey::SystemId,
        window: Duration::from_secs(10),
        limit: 2,
        status: 88,
    };
    let mut fw = compiled(vec![chain("c", 0, Policy::Drop, vec![rule("l", vec![], limit)])]);
    let ctx = context("x");
    assert!(matches!(fw.evaluate_at(&ctx, &moment(0)), EvaluationResult::Accept));
    assert!(matches!(fw.evaluate_at(&ctx, &moment(1)), EvaluationResult::Accept));
    assert!(matches!(
        fw.evaluate_at(&ctx, &moment(2)),
        EvaluationResult::Reject { status: 88, reason: None }
    ));
    assert!(matches!(fw.evaluate_at(&ctx, &moment(12)), EvaluationResult::Accept));
}

#[test]
fn limits_and_conditions_count_apart() {
    let rate = ConditionConfig::Rate {
        key: RateKey::SystemId,
        window: Duration::from_secs(10),
        threshold: 1,
    };
    let limit = ActionConfig::RateLimit {
        key: RateKey::SystemId,
        window: Duration::from_secs(10),
        limit: 1,
        status: 88,
    };
    let rules = vec![rule("l", vec![rate], limit)];
    let mut fw = compiled(vec![chain("c", 0, Policy::Drop, rules)]);
    let ctx = context("x");
    assert!(matches!(fw.evaluate_at(&ctx, &moment(0)), EvaluationResult::Drop));
    assert!(matches!(fw.evaluate_at(&ctx, &moment(0)), EvaluationResult::Accept));
    assert!(matches!(
        fw.evaluate_at(&ctx, &moment(0)),
        EvaluationResult::Reject { status: 88, .. }
    ));
}

#[test]
fn jumps_answer_for_their_chain() {
    let jump = |name: &str| ActionConfig::Jump { chain: name.to_string() };
    let mut helper = chain(
        "helper",
        9,
        Policy::Accept,
        vec![rule("spam", vec![contains("spam", true, false)], ActionConfig::Quarantine)],
    );
    helper.chain_type = ChainType::Output;
    let mut fw = compiled(vec![
        chain("main", 0, Policy::Drop, vec![rule("go", vec![], jump("helper"))]),
        helper,
    ]);
    assert!(matches!(fw.evaluate_at(&context("SPAM"), &moment(0)), EvaluationResult::Quarantine));
    assert!(matches!(fw.evaluate_at(&context("hello"), &moment(0)), EvaluationResult::Accept));
    let stats = fw.get_stats();
    assert_eq!(stats.rule_hits.get("go"), Some(&2));
    assert_eq!(stats.rule_hits.get("spam"), Some(&1));

    let mut lost = compiled(vec![
        chain("main", 0, Policy::Drop, vec![rule("go", vec![], jump("nowhere"))]),
        chain("next", 1, Policy::Drop, vec![]),
    ]);
    assert!(matches!(lost.evaluate_at(&context("x"), &moment(0)), EvaluationResult::Drop));

    let mut round = compiled(vec![
        chain("a", 0, Policy::Drop, vec![rule("ab", vec![], jump("b"))]),
        chain("b", 1, Policy::Drop, vec![rule("ba", vec![], jump("a"))]),
    ]);
    assert!(matches!(round.evaluate_at(&context("x"), &moment(0)), EvaluationResult::Accept));
    assert_eq!(round.get_stats().rule_hits.get("ab"), Some(&3));
}

#[test]
fn actions_hand_out_what_is_to_be_done() {
    let log = ActionConfig::Log {
        level: LogLevel::Warn,
        message: None,
        then_action: Some(Box::new(ActionConfig::Delay { duration: Duration::from_secs(3) })),
    };
    let modify = ActionConfig::Modify {
        set_source: Some("INFO".to_string()),
        set_destination: None,
        set_content: None,
        prepend_content: Some("<".to_string()),
        append_content: Some(">".to_string()),
    };
    let mark = ActionConfig::Mark { key: "k".to_string(), value: "v".to_string() };
    let mut fw = compiled(vec![
        chain("a", 0, Policy::Drop, vec![rule("log", vec![], log)]),
        chain("b", 1, Policy::Drop, vec![rule("modify", vec![], modify)]),
        chain("c", 2, Policy::Drop, vec![rule("mark", vec![], mark)]),
    ]);
    let (result, effects) = fw.evaluate_with_effects_at(&context("hi"), &moment(0));
    assert!(matches!(result, EvaluationResult::Accept));
    assert_eq!(effects.len(), 4);
    assert!(matches!(
        &effects[0],
        Effect::Log { level: LogLevel::Warn, text } if text == "Firewall: +258841234567 -> +258821234567"
    ));
    assert!(matches!(&effects[1], Effect::Delay { duration } if duration.as_secs() == 3));
    assert!(matches!(
        &effects[2],
        Effect::Modify { source: Some(s), destination: None, content: Some(c) } if s == "INFO" && c == "<hi>"
    ));
    assert!(matches!(&effects[3], Effect::Mark { key, value } if key == "k" && value == "v"));
    assert_eq!(fw.evaluate_with_effects(&context("hi")).1.len(), 4);
}
