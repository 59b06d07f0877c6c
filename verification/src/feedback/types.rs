//! Decisions, their outcomes, and statistics of them.

use crate::bootstrap::events::{number_after, number_taken, numbers_taken_differ, IdSource};
use crate::text::{decimal, number, opt_text};
use crate::time::{Duration, Instant};
use vstd::prelude::*;

verus! {

/// Identifies a decision.
#[derive(Debug, Clone, Copy, PartialEq, Eq, Structural, Hash)]
pub struct DecisionId(u64);

impl DecisionId {
    /// The number of the decision.
    pub closed spec fn value(&self) -> u64 {
        self.0
    }

    /// A new decision, with the next number of a source.
    pub fn new(ids: &mut IdSource) -> (id: Self)
        ensures
            id.value() == old(ids).upcoming(),
            final(ids).upcoming() == number_after(old(ids).upcoming()),
    {
        DecisionId(ids.take())
    }

    /// The number of the decision.
    pub fn as_u64(&self) -> (n: u64)
        ensures
            n == self.value(),
    {
        self.0
    }

    /// The name of the decision.
    pub fn to_string(&self) -> (s: String)
        ensures
            s@ == "dec_"@ + decimal(self.value() as nat),
    {
        let mut s = "dec_".to_string();
        let n = number(self.0);
        s.append(n.as_str());
        s
    }
}

/// Two decision IDs are the same exactly when they hold the same number.
pub proof fn decision_ids_are_equal_by_value(a: DecisionId, b: DecisionId)
    ensures
        a == b <==> a.value() == b.value(),
{
}

/// The decisions that get their numbers from one source are told apart, until
/// all numbers have had their turn.
pub proof fn decisions_are_told_apart(first: u64, i: nat, j: nat, a: DecisionId, b: DecisionId)
    requires
        i < j <= u64::MAX,
        a.value() == number_taken(first, i),
        b.value() == number_taken(first, j),
    ensures
        a != b,
{
    numbers_taken_differ(first, i, j);
}

/// Kind of a decision.
#[derive(Debug, Clone, Copy, PartialEq, Eq, Structural, Hash)]
pub enum DecisionType {
    /// Which cluster a message goes to.
    Route,
    /// Which endpoint of a cluster.
    LoadBalance,
    /// Another try after a failure.
    Retry,
    /// Another cluster after a failure.
    Fallback,
}

impl DecisionType {
    /// Name of the kind.
    pub fn name(&self) -> (s: &'static str)
        ensures
            s@ == match self {
                DecisionType::Route => "route"@,
                DecisionType::LoadBalance => "load_balance"@,
                DecisionType::Retry => "retry"@,
                DecisionType::Fallback => "fallback"@,
            },
    {
        match self {
            DecisionType::Route => "route",
            DecisionType::LoadBalance => "load_balance",
            DecisionType::Retry => "retry",
            DecisionType::Fallback => "fallback",
        }
    }
}

/// What is known of the message that a decision is about.
#[derive(Debug)]
pub struct DecisionContext {
    pub destination: Option<String>,
    pub source: Option<String>,
    pub sender_id: Option<String>,
    pub system_id: Option<String>,
    pub route_name: Option<String>,
    pub cluster_name: Option<String>,
    /// Number of the attempt.
    pub attempt: Option<u32>,
    /// The cluster that failed before.
    pub fallback_from: Option<String>,
}

/// What is known of the message that a decision is about.
#[verifier::ext_equal]
pub struct ContextView {
    pub destination: Option<Seq<char>>,
    pub source: Option<Seq<char>>,
    pub sender_id: Option<Seq<char>>,
    pub system_id: Option<Seq<char>>,
    pub route_name: Option<Seq<char>>,
    pub cluster_name: Option<Seq<char>>,
    pub attempt: Option<u32>,
    pub fallback_from: Option<Seq<char>>,
}

impl View for DecisionContext {
    type V = ContextView;

    open spec fn view(&self) -> ContextView {
        ContextView {
            destination: opt_text(self.destination),
            source: opt_text(self.source),
            sender_id: opt_text(self.sender_id),
            system_id: opt_text(self.system_id),
            route_name: opt_text(self.route_name),
            cluster_name: opt_text(self.cluster_name),
            attempt: self.attempt,
            fallback_from: opt_text(self.fallback_from),
        }
    }
}

/// A context in which nothing is known.
pub open spec fn empty_context() -> ContextView {
    ContextView {
        destination: None,
        source: None,
        sender_id: None,
        system_id: None,
        route_name: None,
        cluster_name: None,
        attempt: None,
        fallback_from: None,
    }
}

impl Default for DecisionContext {
    fn default() -> (c: Self)
        ensures
            c@ == empty_context(),
    {
        DecisionContext {
            destination: None,
            source: None,
            sender_id: None,
            system_id: None,
            route_name: None,
            cluster_name: None,
            attempt: None,
            fallback_from: None,
        }
    }
}

impl DecisionContext {
    /// A context with a destination.
    pub fn new(destination: &str) -> (c: Self)
        ensures
            c@ == (ContextView { destination: Some(destination@), ..empty_context() }),
    {
        DecisionContext { destination: Some(destination.to_string()), ..DecisionContext::default() }
    }

    /// The context with a source.
    pub fn with_source(self, source: &str) -> (c: Self)
        ensures
            c@ == (ContextView { source: Some(source@), ..self@ }),
    {
        DecisionContext { source: Some(source.to_string()), ..self }
    }

    /// The context with a sender.
    pub fn with_sender_id(self, sender_id: &str) -> (c: Self)
        ensures
            c@ == (ContextView { sender_id: Some(sender_id@), ..self@ }),
    {
        DecisionContext { sender_id: Some(sender_id.to_string()), ..self }
    }

    /// The context with a client.
    pub fn with_system_id(self, system_id: &str) -> (c: Self)
        ensures
            c@ == (ContextView { system_id: Some(system_id@), ..self@ }),
    {
        DecisionContext { system_id: Some(system_id.to_string()), ..self }
    }

    /// The context with a route.
    pub fn with_route(self, route_name: &str) -> (c: Self)
        ensures
            c@ == (ContextView { route_name: Some(route_name@), ..self@ }),
    {
        DecisionContext { route_name: Some(route_name.to_string()), ..self }
    }

    /// The context with a cluster.
    pub fn with_cluster(self, cluster_name: &str) -> (c: Self)
        ensures
            c@ == (ContextView { cluster_name: Some(cluster_name@), ..self@ }),
    {
        DecisionContext { cluster_name: Some(cluster_name.to_string()), ..self }
    }
}

/// A decision.
#[derive(Debug)]
pub struct Decision {
    pub id: DecisionId,
    pub decision_type: DecisionType,
    /// What was chosen.
    pub target: String,
    /// What else could have been chosen.
    pub alternatives: Vec<String>,
    pub context: DecisionContext,
    /// When it was made.
    pub timestamp: Instant,
}

/// The next number of a source.
pub open spec fn next_of(before: IdSource, after: IdSource) -> bool {
    after.upcoming() == number_after(before.upcoming())
}

impl Decision {
    fn make(
        ids: &mut IdSource,
        decision_type: DecisionType,
        target: &str,
        alternatives: Vec<String>,
        context: DecisionContext,
        now: &Instant,
    ) -> (d: Self)
        ensures
            d.id.value() == old(ids).upcoming(),
            next_of(*old(ids), *final(ids)),
            d.decision_type == decision_type,
            d.target@ == target@,
            d.alternatives == alternatives,
            d.context == context,
            d.timestamp == *now,
    {
        Decision {
            id: DecisionId::new(ids),
            decision_type,
            target: target.to_string(),
            alternatives,
            context,
            timestamp: *now,
        }
    }

    /// A decision on a cluster.
    pub fn route(
        ids: &mut IdSource,
        target: &str,
        alternatives: Vec<String>,
        context: DecisionContext,
        now: &Instant,
    ) -> (d: Self)
        ensures
            d.id.value() == old(ids).upcoming(),
            next_of(*old(ids), *final(ids)),
            d.decision_type == DecisionType::Route,
            d.target@ == target@,
            d.alternatives == alternatives,
            d.context == context,
            d.timestamp == *now,
    {
        Decision::make(ids, DecisionType::Route, target, alternatives, context, now)
    }

    /// A decision on an endpoint.
    pub fn load_balance(
        ids: &mut IdSource,
        target: &str,
        alternatives: Vec<String>,
        context: DecisionContext,
        now: &Instant,
    ) -> (d: Self)
        ensures
            d.id.value() == old(ids).upcoming(),
            next_of(*old(ids), *final(ids)),
            d.decision_type == DecisionType::LoadBalance,
            d.target@ == target@,
            d.alternatives == alternatives,
            d.context == context,
            d.timestamp == *now,
    {
        Decision::make(ids, DecisionType::LoadBalance, target, alternatives, context, now)
    }

    /// A decision to try again.
    pub fn retry(
        ids: &mut IdSource,
        target: &str,
        attempt: u32,
        context: DecisionContext,
        now: &Instant,
    ) -> (d: Self)
        ensures
            d.id.value() == old(ids).upcoming(),
            next_of(*old(ids), *final(ids)),
            d.decision_type == DecisionType::Retry,
            d.target@ == target@,
            d.alternatives@.len() == 0,
            d.context@ == (ContextView { attempt: Some(attempt), ..context@ }),
            d.timestamp == *now,
    {
        let context = DecisionContext { attempt: Some(attempt), ..context };
        Decision::make(ids, DecisionType::Retry, target, Vec::new(), context, now)
    }

    /// A decision on another cluster after one has failed.
    pub fn fallback(
        ids: &mut IdSource,
        from: &str,
        to: &str,
        remaining: Vec<String>,
        context: DecisionContext,
        now: &Instant,
    ) -> (d: Self)
        ensures
            d.id.value() == old(ids).upcoming(),
            next_of(*old(ids), *final(ids)),
            d.decision_type == DecisionType::Fallback,
            d.target@ == to@,
            d.alternatives == remaining,
            d.context@ == (ContextView { fallback_from: Some(from@), ..context@ }),
            d.timestamp == *now,
    {
        let context = DecisionContext { fallback_from: Some(from.to_string()), ..context };
        Decision::make(ids, DecisionType::Fallback, to, remaining, context, now)
    }
}

/// What came of a decision.
#[derive(Debug)]
pub struct Outcome {
    pub decision_id: DecisionId,
    pub success: bool,
    /// How long it took.
    pub latency: Duration,
    /// Command status of a failure.
    pub error_code: Option<u32>,
    pub error_message: Option<String>,
    /// When it was noted.
    pub timestamp: Instant,
}

impl Outcome {
    /// A success.
    pub fn success(decision_id: DecisionId, latency: Duration, now: &Instant) -> (o: Self)
        ensures
            o == (Outcome {
                decision_id,
                success: true,
                latency,
                error_code: None,
                error_message: None,
                timestamp: *now,
            }),
    {
        Outcome {
            decision_id,
            success: true,
            latency,
            error_code: None,
            error_message: None,
            timestamp: *now,
        }
    }

    /// A failure.
    pub fn failure(
        decision_id: DecisionId,
        latency: Duration,
        error_code: Option<u32>,
        error_message: Option<String>,
        now: &Instant,
    ) -> (o: Self)
        ensures
            o == (Outcome {
                decision_id,
                success: false,
                latency,
                error_code,
                error_message,
                timestamp: *now,
            }),
    {
        Outcome { decision_id, success: false, latency, error_code, error_message, timestamp: *now }
    }
}

/// Statistics of a kind of decision. Latencies are in microseconds.
#[derive(Debug, Clone, Copy, PartialEq, Eq, Structural)]
pub struct DecisionStats {
    pub total: u64,
    pub successes: u64,
    pub failures: u64,
    /// Decisions of which nothing has come yet.
    pub pending: u64,
    pub avg_latency_us: u64,
    pub p50_latency_us: u64,
    pub p95_latency_us: u64,
    pub p99_latency_us: u64,
}

impl Default for DecisionStats {
    fn default() -> (s: Self)
        ensures
            s == (DecisionStats {
                total: 0,
                successes: 0,
                failures: 0,
                pending: 0,
                avg_latency_us: 0,
                p50_latency_us: 0,
                p95_latency_us: 0,
                p99_latency_us: 0,
            }),
    {
        DecisionStats {
            total: 0,
            successes: 0,
            failures: 0,
            pending: 0,
            avg_latency_us: 0,
            p50_latency_us: 0,
            p95_latency_us: 0,
            p99_latency_us: 0,
        }
    }
}

/// Statistics of a target. Latencies are in microseconds.
#[derive(Debug)]
pub struct TargetStats {
    pub name: String,
    pub total: u64,
    pub successes: u64,
    pub failures: u64,
    pub avg_latency_us: u64,
    /// Moving average of the latency, by the bits of a 64-bit float.
    pub ema_latency_bits: u64,
    pub last_update: Option<Instant>,
}

/// Statistics of a target.
#[verifier::ext_equal]
pub struct TargetStatsView {
    pub name: Seq<char>,
    pub total: u64,
    pub successes: u64,
    pub failures: u64,
    pub avg_latency_us: u64,
    pub ema_latency_bits: u64,
    pub last_update: Option<Instant>,
}

impl View for TargetStats {
    type V = TargetStatsView;

    open spec fn view(&self) -> TargetStatsView {
        TargetStatsView {
            name: self.name@,
            total: self.total,
            successes: self.successes,
            failures: self.failures,
            avg_latency_us: self.avg_latency_us,
            ema_latency_bits: self.ema_latency_bits,
            last_update: self.last_update,
        }
    }
}

/// Statistics of a target of which nothing is known.
pub open spec fn no_stats(name: Seq<char>) -> TargetStatsView {
    TargetStatsView {
        name,
        total: 0,
        successes: 0,
        failures: 0,
        avg_latency_us: 0,
        ema_latency_bits: 0,
        last_update: None,
    }
}

/// Successes and failures by which targets are compared. A target without
/// outcomes counts as one that has never failed.
pub open spec fn record_of(successes: u64, failures: u64) -> (nat, nat) {
    if successes == 0 && failures == 0 {
        (1, 0)
    } else {
        (successes as nat, failures as nat)
    }
}

/// Of two targets with some successes and failures, the first one succeeds
/// less often.
pub open spec fn rate_less(a: (nat, nat), b: (nat, nat)) -> bool {
    a.0 * b.1 < b.0 * a.1
}

/// The comparison is that of the shares of successes in all outcomes.
pub proof fn rates_compare_shares(a: (nat, nat), b: (nat, nat))
    ensures
        rate_less(a, b) <==> a.0 * (b.0 + b.1) < b.0 * (a.0 + a.1),
{
    assert(a.0 * (b.0 + b.1) == a.0 * b.0 + a.0 * b.1) by (nonlinear_arith);
    assert(b.0 * (a.0 + a.1) == a.0 * b.0 + b.0 * a.1) by (nonlinear_arith);
}

impl TargetStats {
    /// Statistics of a target of which nothing is known.
    pub fn new(name: &str) -> (s: Self)
        ensures
            s@ == no_stats(name@),
    {
        TargetStats {
            name: name.to_string(),
            total: 0,
            successes: 0,
            failures: 0,
            avg_latency_us: 0,
            ema_latency_bits: 0,
            last_update: None,
        }
    }

    /// Whether the target succeeds less often than another.
    pub fn succeeds_less_than(&self, other: &TargetStats) -> (b: bool)
        ensures
            b == rate_less(
                record_of(self.successes, self.failures),
                record_of(other.successes, other.failures),
            ),
    {
        let (s1, f1): (u64, u64) = counted(self.successes, self.failures);
        let (s2, f2): (u64, u64) = counted(other.successes, other.failures);
        assert(s1 as u128 * f2 as u128 <= u128::MAX && s2 as u128 * f1 as u128 <= u128::MAX)
            by (nonlinear_arith)
            requires
                s1 <= 0xffff_ffff_ffff_ffff,
                s2 <= 0xffff_ffff_ffff_ffff,
                f1 <= 0xffff_ffff_ffff_ffff,
                f2 <= 0xffff_ffff_ffff_ffff,
        ;
        s1 as u128 * (f2 as u128) < s2 as u128 * (f1 as u128)
    }
}

fn counted(successes: u64, failures: u64) -> (r: (u64, u64))
    ensures
        r.0 as nat == record_of(successes, failures).0,
        r.1 as nat == record_of(successes, failures).1,
{
    if successes == 0 && failures == 0 {
        (1, 0)
    } else {
        (successes, failures)
    }
}

} // verus!
