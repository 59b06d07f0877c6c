use smppd::bootstrap::events::IdSource;
use smppd::feedback::memory::{calculate_percentiles, InMemoryFeedback};
use smppd::feedback::types::{
    Decision, DecisionContext, DecisionId, DecisionType, Outcome, TargetStats,
};
use smppd::time::{Duration, Instant};

fn at(secs: u128) -> Instant {
    Instant { nanos: secs * 1_000_000_000 }
}

/// Share of successes.
fn success_rate(stats: &TargetStats) -> f64 {
    let total = stats.successes + stats.failures;
    if total == 0 {
        1.0
    } else {
        stats.successes as f64 / total as f64
    }
}

/// Moving average of a target after one more latency.
fn moving_average(before: f64, latency_us: f64) -> f64 {
    if before == 0.0 {
        latency_us
    } else {
        0.2 * latency_us + 0.8 * before
    }
}

fn score(stats: &TargetStats) -> f64 {
    let ema = f64::from_bits(stats.ema_latency_bits) as u64;
    let latency_factor = if ema == 0 { 1.0 } else { 1000.0 / (ema as f64).max(1.0) };
    success_rate(stats) * 0.7 + latency_factor.min(1.0) * 0.3
}

fn note(store: &mut InMemoryFeedback, outcome: Outcome) {
    let latency_us = outcome.latency.as_micros() as f64;
    if let Some(target) = store.record_outcome(outcome) {
        let before = f64::from_bits(store.target_stats(&target).ema_latency_bits);
        store.note_average(&target, moving_average(before, latency_us).to_bits());
    }
}

#[test]
fn test_decision_id_display() {
    let mut ids = IdSource::starting_at(0);
    let id = DecisionId::new(&mut ids);
    let s = id.to_string();
    assert!(s.starts_with("dec_"));
    assert_eq!(s, "dec_0");
    assert_eq!(DecisionId::new(&mut ids).as_u64(), 1);
}

#[test]
fn test_decision_type_name() {
    assert_eq!(DecisionType::Route.name(), "route");
    assert_eq!(DecisionType::LoadBalance.name(), "load_balance");
    assert_eq!(DecisionType::Retry.name(), "retry");
    assert_eq!(DecisionType::Fallback.name(), "fallback");
}

#[test]
fn test_record_decision_and_outcome() {
    let mut ids = IdSource::starting_at(0);
    let mut store = InMemoryFeedback::new();

    let ctx = DecisionContext::new("+258841234567");
    let now = store.now();
    let decision = Decision::route(&mut ids, "vodacom", vec!["mtn".to_string()], ctx, &now);
    let id = store.record_decision(decision);

    assert_eq!(store.pending_count(), 1);

    let outcome = Outcome::success(id, Duration::from_millis(50), &now);
    store.record_outcome(outcome);

    assert_eq!(store.pending_count(), 0);

    let stats = store.target_stats("vodacom");
    assert_eq!(stats.total, 1);
    assert_eq!(stats.successes, 1);
    assert_eq!(stats.failures, 0);
    assert!(stats.avg_latency_us >= 50_000);
}

#[test]
fn test_decision_type_stats() {
    let mut ids = IdSource::starting_at(0);
    let mut store = InMemoryFeedback::new();

    for i in 0..3 {
        let ctx = DecisionContext::new(&format!("+25884{}", i));
        let now = store.now();
        let decision = Decision::route(&mut ids, "vodacom", vec![], ctx, &now);
        let id = store.record_decision(decision);

        let outcome = if i < 2 {
            Outcome::success(id, Duration::from_millis(10), &now)
        } else {
            Outcome::failure(id, Duration::from_millis(100), Some(0x14), None, &now)
        };
        store.record_outcome(outcome);
    }

    let stats = store.stats(DecisionType::Route);
    assert_eq!(stats.total, 3);
    assert_eq!(stats.successes, 2);
    assert_eq!(stats.failures, 1);
    assert_eq!(stats.pending, 0);
    assert_eq!(stats.avg_latency_us, 40_000);
    assert_eq!(stats.p50_latency_us, 10_000);
    assert_eq!(stats.p99_latency_us, 100_000);
    assert_eq!(store.stats(DecisionType::Retry).p50_latency_us, 0);
}

#[test]
fn test_ema_latency() {
    let mut ids = IdSource::starting_at(0);
    let mut store = InMemoryFeedback::new();

    let latencies = [10, 20, 30, 40, 50];

    for lat in latencies {
        let ctx = DecisionContext::new("+258841234567");
        let now = store.now();
        let decision = Decision::load_balance(&mut ids, "endpoint1", vec![], ctx, &now);
        let id = store.record_decision(decision);
        note(&mut store, Outcome::success(id, Duration::from_millis(lat), &now));
    }

    let stats = store.target_stats("endpoint1");
    let ema_latency_us = f64::from_bits(stats.ema_latency_bits) as u64;
    assert!(ema_latency_us > 20_000);
    assert!(ema_latency_us < 35_000);
}

#[test]
fn test_target_score() {
    let mut ids = IdSource::starting_at(0);
    let mut store = InMemoryFeedback::new();

    for _ in 0..10 {
        let ctx = DecisionContext::new("+258");
        let now = store.now();
        let decision = Decision::load_balance(&mut ids, "fast_endpoint", vec![], ctx, &now);
        let id = store.record_decision(decision);
        note(&mut store, Outcome::success(id, Duration::from_micros(500), &now));
    }

    for i in 0..10 {
        let ctx = DecisionContext::new("+258");
        let now = store.now();
        let decision = Decision::load_balance(&mut ids, "slow_endpoint", vec![], ctx, &now);
        let id = store.record_decision(decision);
        if i < 5 {
            note(&mut store, Outcome::success(id, Duration::from_millis(100), &now));
        } else {
            note(
                &mut store,
                Outcome::failure(id, Duration::from_millis(500), Some(0x14), None, &now),
            );
        }
    }

    let fast_stats = store.target_stats("fast_endpoint");
    let slow_stats = store.target_stats("slow_endpoint");

    assert!(score(&fast_stats) > score(&slow_stats));
    assert!(success_rate(&fast_stats) > 0.99);
    assert!((success_rate(&slow_stats) - 0.5).abs() < 0.01);
    assert!(slow_stats.succeeds_less_than(&fast_stats));
    assert!(!fast_stats.succeeds_less_than(&slow_stats));
}

#[test]
fn test_all_target_stats_sorted() {
    let mut ids = IdSource::starting_at(0);
    let mut store = InMemoryFeedback::new();

    let targets = [("worst", 3, 7), ("best", 10, 0), ("medium", 7, 3)];

    for (name, successes, failures) in targets {
        for _ in 0..successes {
            let now = store.now();
            let decision =
                Decision::load_balance(&mut ids, name, vec![], DecisionContext::default(), &now);
            let id = store.record_decision(decision);
            store.record_outcome(Outcome::success(id, Duration::from_millis(10), &now));
        }
        for _ in 0..failures {
            let now = store.now();
            let decision =
                Decision::load_balance(&mut ids, name, vec![], DecisionContext::default(), &now);
            let id = store.record_decision(decision);
            store.record_outcome(Outcome::failure(id, Duration::from_millis(10), None, None, &now));
        }
    }

    let all = store.all_target_stats();
    assert_eq!(all.len(), 3);
    assert_eq!(all[0].name, "best");
    assert_eq!(all[1].name, "medium");
    assert_eq!(all[2].name, "worst");
    assert_eq!(store.target_count(), 3);
}

#[test]
fn test_prune_old_decisions() {
    let mut ids = IdSource::starting_at(0);
    let mut store = InMemoryFeedback::new();

    let now = store.now();
    let decision = Decision::route(&mut ids, "vodacom", vec![], DecisionContext::default(), &now);
    store.record_decision(decision);

    assert_eq!(store.pending_count(), 1);

    store.prune(&Duration::from_secs(0));

    assert_eq!(store.pending_count(), 0);
}

#[test]
fn test_percentile_calculation() {
    let samples: Vec<u64> = (1..=100).collect();
    let (p50, p95, p99) = calculate_percentiles(&samples);

    assert_eq!(p50, 51);
    assert_eq!(p95, 96);
    assert_eq!(p99, 100);
}

#[test]
fn percentiles_sort_first() {
    assert_eq!(calculate_percentiles(&vec![]), (0, 0, 0));
    assert_eq!(calculate_percentiles(&vec![9]), (9, 9, 9));
    assert_eq!(calculate_percentiles(&vec![30, 10, 20]), (20, 30, 30));
}

#[test]
fn test_decision_context_builder() {
    let ctx = DecisionContext::new("+258841234567")
        .with_source("client1")
        .with_sender_id("KATEMBE")
        .with_system_id("sys001")
        .with_route("vodacom-route")
        .with_cluster("vodacom");

    assert_eq!(ctx.destination.as_deref(), Some("+258841234567"));
    assert_eq!(ctx.source.as_deref(), Some("client1"));
    assert_eq!(ctx.sender_id.as_deref(), Some("KATEMBE"));
    assert_eq!(ctx.system_id.as_deref(), Some("sys001"));
    assert_eq!(ctx.route_name.as_deref(), Some("vodacom-route"));
    assert_eq!(ctx.cluster_name.as_deref(), Some("vodacom"));
}

#[test]
fn retry_and_fallback_decisions_carry_their_context() {
    let mut ids = IdSource::new();
    let retry = Decision::retry(&mut ids, "mtn", 3, DecisionContext::new("+1"), &at(1));
    assert_eq!(retry.context.attempt, Some(3));
    assert_eq!(retry.decision_type, DecisionType::Retry);
    assert!(retry.alternatives.is_empty());
    let fallback = Decision::fallback(
        &mut ids,
        "mtn",
        "vodacom",
        vec!["tmcel".to_string()],
        DecisionContext::default(),
        &at(1),
    );
    assert_eq!(fallback.context.fallback_from.as_deref(), Some("mtn"));
    assert_eq!(fallback.target, "vodacom");
    assert_eq!(fallback.alternatives, vec!["tmcel"]);
    assert!(retry.id != fallback.id);
}

#[test]
fn unknown_outcomes_change_nothing() {
    let mut ids = IdSource::new();
    let mut store = InMemoryFeedback::default();
    let d = Decision::route(&mut ids, "a", vec![], DecisionContext::default(), &at(5));
    let id = store.record_decision(d);
    assert!(store.record_outcome_at(Outcome::success(id, Duration::from_millis(1), &at(6)), &at(6)).is_some());
    assert!(store.record_outcome_at(Outcome::success(id, Duration::from_millis(1), &at(6)), &at(6)).is_none());
    assert_eq!(store.target_stats("a").total, 1);
    assert_eq!(store.target_stats("a").last_update, Some(at(6)));
    assert_eq!(store.target_stats("b").total, 0);
}

#[test]
fn pruning_keeps_young_decisions() {
    let mut ids = IdSource::new();
    let mut store = InMemoryFeedback::new();
    for t in [10u128, 20, 30] {
        let d = Decision::route(&mut ids, "a", vec![], DecisionContext::default(), &at(t));
        store.record_decision(d);
    }
    assert_eq!(store.stats(DecisionType::Route).pending, 3);
    store.prune_at(&Duration::from_secs(15), &at(35));
    assert_eq!(store.pending_count(), 1);
    assert_eq!(store.stats(DecisionType::Route).pending, 1);
    assert_eq!(store.stats(DecisionType::Route).total, 3);
}
