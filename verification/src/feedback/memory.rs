//! Decisions and outcomes in memory.

use crate::collections::StringMap;
use crate::feedback::types::{
    no_stats, rate_less, record_of, Decision, DecisionId, DecisionStats, DecisionType, Outcome,
    TargetStats, TargetStatsView,
};
use crate::time::{Clock, Duration, Instant};
use vstd::prelude::*;

verus! {

/// How many decisions are kept.
pub const MAX_DECISIONS: usize = 100_000;

/// How many decisions go when there are too many.
pub const PRUNED_DECISIONS: usize = 10_000;

/// How many latencies are kept.
pub const MAX_SAMPLES: usize = 100_000;

/// How many latencies go when there are too many.
pub const PRUNED_SAMPLES: usize = 50_000;

/// Numbers are in order.
pub open spec fn ascending(v: Seq<u64>) -> bool {
    forall|i: int, j: int| 0 <= i < j < v.len() ==> v[i] <= v[j]
}

/// A sequence holds the numbers of another in order.
pub open spec fn sorted_copy(sorted: Seq<u64>, v: Seq<u64>) -> bool {
    ascending(sorted) && sorted.to_multiset() == v.to_multiset()
}

/// Calls `slice::sort_unstable`, which puts numbers in order. What is claimed
/// is that the same numbers are there afterwards, in order.
#[verifier::external_body]
fn sort_numbers(v: &mut Vec<u64>)
    ensures
        sorted_copy(final(v)@, old(v)@),
{
    v.sort_unstable();
}

/// Position of a percentile among some numbers in order.
pub open spec fn percentile_index(n: nat, percent: nat) -> int {
    let i = n * percent / 100;
    if i < n {
        i as int
    } else {
        n - 1
    }
}

fn index_of_percentile(n: usize, percent: u64) -> (i: usize)
    requires
        n > 0,
        percent <= 100,
    ensures
        i == percentile_index(n as nat, percent as nat),
        i < n,
{
    assert(n as u128 * percent as u128 <= u128::MAX) by (nonlinear_arith)
        requires
            n <= 0xffff_ffff_ffff_ffff,
            percent <= 100,
    ;
    let product: u128 = n as u128 * percent as u128;
    assert(product as nat == n as nat * percent as nat);
    let i: u128 = product / 100;
    if i < n as u128 {
        i as usize
    } else {
        n - 1
    }
}

/// Three percentiles are those of some numbers: of a sequence that holds the
/// same numbers in order. Without numbers they are zero.
pub open spec fn are_percentiles(samples: Seq<u64>, p: (u64, u64, u64)) -> bool {
    if samples.len() == 0 {
        p == (0u64, 0u64, 0u64)
    } else {
        exists|sorted: Seq<u64>| #[trigger]
            sorted_copy(sorted, samples) && p == (
                sorted[percentile_index(samples.len(), 50)],
                sorted[percentile_index(samples.len(), 95)],
                sorted[percentile_index(samples.len(), 99)],
            )
    }
}

/// The median and two high percentiles of some numbers.
pub fn calculate_percentiles(samples: &Vec<u64>) -> (p: (u64, u64, u64))
    ensures
        are_percentiles(samples@, p),
{
    if samples.len() == 0 {
        return (0, 0, 0);
    }
    let mut sorted: Vec<u64> = Vec::new();
    let mut i: usize = 0;
    while i < samples.len()
        invariant
            i <= samples.len(),
            sorted@ == samples@.take(i as int),
        decreases samples.len() - i,
    {
        sorted.push(samples[i]);
        i += 1;
    }
    assert(sorted@ == samples@);
    sort_numbers(&mut sorted);
    proof {
        sorted@.to_multiset_ensures();
        samples@.to_multiset_ensures();
        assert(sorted@.len() == samples@.len());
    }
    let n: usize = sorted.len();
    let p50: usize = index_of_percentile(n, 50);
    let p95: usize = index_of_percentile(n, 95);
    let p99: usize = index_of_percentile(n, 99);
    assert(sorted_copy(sorted@, samples@));
    (sorted[p50], sorted[p95], sorted[p99])
}

/// A percentile is one of the numbers, and a higher percentile is no smaller.
pub proof fn percentiles_are_samples(samples: Seq<u64>, p: (u64, u64, u64))
    requires
        samples.len() > 0,
        are_percentiles(samples, p),
    ensures
        samples.contains(p.0),
        samples.contains(p.1),
        samples.contains(p.2),
        p.0 <= p.1 <= p.2,
{
    let sorted = choose|sorted: Seq<u64>| #[trigger]
        sorted_copy(sorted, samples) && p == (
            sorted[percentile_index(samples.len(), 50)],
            sorted[percentile_index(samples.len(), 95)],
            sorted[percentile_index(samples.len(), 99)],
        );
    sorted.to_multiset_ensures();
    samples.to_multiset_ensures();
    assert(sorted.len() == samples.len());
    let n = samples.len() as int;
    let i = percentile_index(samples.len(), 50);
    let j = percentile_index(samples.len(), 95);
    let k = percentile_index(samples.len(), 99);
    assert(0 <= i <= j <= k < n);
    assert(sorted.to_multiset().contains(sorted[i]));
    assert(sorted.to_multiset().contains(sorted[j]));
    assert(sorted.to_multiset().contains(sorted[k]));
}

/// One more, up to the greatest number.
pub open spec fn one_more(n: u64) -> u64 {
    if n == u64::MAX {
        n
    } else {
        (n + 1) as u64
    }
}

/// A sum, up to the greatest number.
pub open spec fn sum_up(a: u64, b: u64) -> u64 {
    if a + b > u64::MAX {
        u64::MAX
    } else {
        (a + b) as u64
    }
}

/// What is kept of a target.
#[derive(Debug, Clone, Copy, PartialEq, Eq, Structural)]
pub struct TargetRecord {
    pub total: u64,
    pub successes: u64,
    pub failures: u64,
    pub sum_latency_us: u64,
    /// Moving average of the latency, by the bits of a 64-bit float.
    pub ema_latency_bits: u64,
    pub last_update: Option<Instant>,
}

/// Nothing is kept of a target.
pub open spec fn new_record() -> TargetRecord {
    TargetRecord {
        total: 0,
        successes: 0,
        failures: 0,
        sum_latency_us: 0,
        ema_latency_bits: 0,
        last_update: None,
    }
}

/// What is kept of a target after an outcome.
pub open spec fn record_after(
    r: TargetRecord,
    success: bool,
    latency_us: u64,
    now: Instant,
) -> TargetRecord {
    TargetRecord {
        total: one_more(r.total),
        successes: if success {
            one_more(r.successes)
        } else {
            r.successes
        },
        failures: if success {
            r.failures
        } else {
            one_more(r.failures)
        },
        sum_latency_us: sum_up(r.sum_latency_us, latency_us),
        ema_latency_bits: r.ema_latency_bits,
        last_update: Some(now),
    }
}

/// Statistics of a target.
pub open spec fn target_view(name: Seq<char>, r: TargetRecord) -> TargetStatsView {
    TargetStatsView {
        name,
        total: r.total,
        successes: r.successes,
        failures: r.failures,
        avg_latency_us: if r.total > 0 {
            r.sum_latency_us / r.total
        } else {
            0
        },
        ema_latency_bits: r.ema_latency_bits,
        last_update: r.last_update,
    }
}

impl TargetRecord {
    /// Nothing.
    pub fn new() -> (r: Self)
        ensures
            r == new_record(),
    {
        TargetRecord {
            total: 0,
            successes: 0,
            failures: 0,
            sum_latency_us: 0,
            ema_latency_bits: 0,
            last_update: None,
        }
    }

    /// The statistics.
    pub fn to_stats(&self, name: &str) -> (s: TargetStats)
        ensures
            s@ == target_view(name@, *self),
    {
        let avg: u64 = if self.total > 0 {
            self.sum_latency_us / self.total
        } else {
            0
        };
        TargetStats {
            name: name.to_string(),
            total: self.total,
            successes: self.successes,
            failures: self.failures,
            avg_latency_us: avg,
            ema_latency_bits: self.ema_latency_bits,
            last_update: self.last_update,
        }
    }

    /// Notes an outcome. The moving average stays as it is.
    pub fn record_outcome(&mut self, success: bool, latency_us: u64, now: &Instant)
        ensures
            *final(self) == record_after(*old(self), success, latency_us, *now),
    {
        self.total = self.total.saturating_add(1);
        if success {
            self.successes = self.successes.saturating_add(1);
        } else {
            self.failures = self.failures.saturating_add(1);
        }
        self.sum_latency_us = self.sum_latency_us.saturating_add(latency_us);
        self.last_update = Some(*now);
    }
}

/// What is kept of a kind of decision.
#[derive(Debug, Clone, Copy, PartialEq, Eq, Structural)]
pub struct TypeRecord {
    pub total: u64,
    pub successes: u64,
    pub failures: u64,
    pub pending: u64,
    pub sum_latency_us: u64,
}

/// Nothing is kept of a kind of decision.
pub open spec fn new_type_record() -> TypeRecord {
    TypeRecord { total: 0, successes: 0, failures: 0, pending: 0, sum_latency_us: 0 }
}

/// Mean latency of a kind of decision.
pub open spec fn mean_latency(r: TypeRecord) -> u64 {
    let completed = r.successes + r.failures;
    if completed > 0 {
        (r.sum_latency_us as int / completed) as u64
    } else {
        0
    }
}

/// Statistics of a kind of decision. Of a kind that was never decided on
/// nothing is known.
pub open spec fn type_stats(r: TypeRecord, samples: Seq<u64>, s: DecisionStats) -> bool {
    if r.total == 0 {
        s == (DecisionStats {
            total: 0,
            successes: 0,
            failures: 0,
            pending: 0,
            avg_latency_us: 0,
            p50_latency_us: 0,
            p95_latency_us: 0,
            p99_latency_us: 0,
        })
    } else {
        &&& s.total == r.total
        &&& s.successes == r.successes
        &&& s.failures == r.failures
        &&& s.pending == r.pending
        &&& s.avg_latency_us == mean_latency(r)
        &&& are_percentiles(samples, (s.p50_latency_us, s.p95_latency_us, s.p99_latency_us))
    }
}

impl TypeRecord {
    /// Nothing.
    pub fn new() -> (r: Self)
        ensures
            r == new_type_record(),
    {
        TypeRecord { total: 0, successes: 0, failures: 0, pending: 0, sum_latency_us: 0 }
    }

    /// The statistics.
    pub fn to_stats(&self, samples: &Vec<u64>) -> (s: DecisionStats)
        ensures
            type_stats(*self, samples@, s),
    {
        if self.total == 0 {
            return DecisionStats::default();
        }
        let completed: u128 = self.successes as u128 + self.failures as u128;
        let avg: u64 = if completed > 0 {
            let mean: u128 = self.sum_latency_us as u128 / completed;
            assert(mean <= self.sum_latency_us) by (nonlinear_arith)
                requires
                    mean == self.sum_latency_us as u128 / completed,
                    completed > 0,
            ;
            mean as u64
        } else {
            0
        };
        let (p50, p95, p99) = calculate_percentiles(samples);
        DecisionStats {
            total: self.total,
            successes: self.successes,
            failures: self.failures,
            pending: self.pending,
            avg_latency_us: avg,
            p50_latency_us: p50,
            p95_latency_us: p95,
            p99_latency_us: p99,
        }
    }
}

/// What is kept of all kinds of decision.
#[derive(Debug, Clone, Copy, PartialEq, Eq, Structural)]
pub struct TypeRecords {
    pub route: TypeRecord,
    pub load_balance: TypeRecord,
    pub retry: TypeRecord,
    pub fallback: TypeRecord,
}

/// What is kept of a kind.
pub open spec fn of_type(t: TypeRecords, kind: DecisionType) -> TypeRecord {
    match kind {
        DecisionType::Route => t.route,
        DecisionType::LoadBalance => t.load_balance,
        DecisionType::Retry => t.retry,
        DecisionType::Fallback => t.fallback,
    }
}

/// The records with that of a kind replaced.
pub open spec fn with_type(t: TypeRecords, kind: DecisionType, r: TypeRecord) -> TypeRecords {
    match kind {
        DecisionType::Route => TypeRecords { route: r, ..t },
        DecisionType::LoadBalance => TypeRecords { load_balance: r, ..t },
        DecisionType::Retry => TypeRecords { retry: r, ..t },
        DecisionType::Fallback => TypeRecords { fallback: r, ..t },
    }
}

impl TypeRecords {
    fn get(&self, kind: DecisionType) -> (r: TypeRecord)
        ensures
            r == of_type(*self, kind),
    {
        match kind {
            DecisionType::Route => self.route,
            DecisionType::LoadBalance => self.load_balance,
            DecisionType::Retry => self.retry,
            DecisionType::Fallback => self.fallback,
        }
    }

    fn set(&mut self, kind: DecisionType, r: TypeRecord)
        ensures
            *final(self) == with_type(*old(self), kind, r),
    {
        match kind {
            DecisionType::Route => {
                self.route = r;
            },
            DecisionType::LoadBalance => {
                self.load_balance = r;
            },
            DecisionType::Retry => {
                self.retry = r;
            },
            DecisionType::Fallback => {
                self.fallback = r;
            },
        }
    }
}

/// What is kept of decisions and outcomes.
#[verifier::ext_equal]
pub struct FeedbackView {
    /// Decisions of which nothing has come yet, oldest first.
    pub decisions: Seq<Decision>,
    /// Targets by name.
    pub targets: Map<Seq<char>, TargetRecord>,
    /// Kinds of decision.
    pub types: TypeRecords,
    /// Latencies, oldest first.
    pub samples: Seq<u64>,
}

/// Position of a decision.
pub open spec fn position_of(decisions: Seq<Decision>, id: DecisionId) -> Option<int>
    decreases decisions.len(),
{
    if decisions.len() == 0 {
        None
    } else if decisions.last().id == id {
        Some(decisions.len() - 1)
    } else {
        position_of(decisions.drop_last(), id)
    }
}

/// The decisions with one more. When there are too many the oldest ones go,
/// and a decision with the same ID is replaced.
pub open spec fn decision_kept(decisions: Seq<Decision>, d: Decision) -> Seq<Decision> {
    let room = if decisions.len() >= MAX_DECISIONS {
        decisions.skip(PRUNED_DECISIONS as int)
    } else {
        decisions
    };
    match position_of(room, d.id) {
        Some(i) => room.update(i, d),
        None => room.push(d),
    }
}

/// What is kept after a decision.
pub open spec fn decided(f: FeedbackView, d: Decision) -> FeedbackView {
    let r = of_type(f.types, d.decision_type);
    FeedbackView {
        decisions: decision_kept(f.decisions, d),
        types: with_type(
            f.types,
            d.decision_type,
            TypeRecord { total: one_more(r.total), pending: one_more(r.pending), ..r },
        ),
        ..f
    }
}

/// What is kept of a kind of decision after an outcome. Of a kind that was
/// never decided on nothing is kept.
pub open spec fn type_after(r: TypeRecord, success: bool, latency_us: u64) -> TypeRecord {
    if r.total == 0 {
        r
    } else {
        TypeRecord {
            pending: if r.pending == 0 {
                0
            } else {
                (r.pending - 1) as u64
            },
            successes: if success {
                one_more(r.successes)
            } else {
                r.successes
            },
            failures: if success {
                r.failures
            } else {
                one_more(r.failures)
            },
            sum_latency_us: sum_up(r.sum_latency_us, latency_us),
            ..r
        }
    }
}

/// What is kept of a target by its name.
pub open spec fn target_record(targets: Map<Seq<char>, TargetRecord>, name: Seq<char>) -> TargetRecord {
    if targets.dom().contains(name) {
        targets[name]
    } else {
        new_record()
    }
}

/// The latencies with one more. When there are too many the oldest ones go.
pub open spec fn sample_kept(samples: Seq<u64>, latency_us: u64) -> Seq<u64> {
    if samples.len() >= MAX_SAMPLES {
        samples.skip(PRUNED_SAMPLES as int).push(latency_us)
    } else {
        samples.push(latency_us)
    }
}

/// Microseconds of a latency, as far as they fit in 64 bits.
pub open spec fn micros_of(latency: nat) -> u64 {
    ((latency / 1000) % 0x1_0000_0000_0000_0000) as u64
}

/// What is kept after an outcome. An outcome of a decision that is not known
/// changes nothing.
pub open spec fn outcome_noted(f: FeedbackView, o: Outcome, now: Instant) -> FeedbackView {
    match position_of(f.decisions, o.decision_id) {
        None => f,
        Some(i) => {
            let d = f.decisions[i];
            let us = micros_of(o.latency@);
            FeedbackView {
                decisions: f.decisions.remove(i),
                targets: f.targets.insert(
                    d.target@,
                    record_after(target_record(f.targets, d.target@), o.success, us, now),
                ),
                types: with_type(
                    f.types,
                    d.decision_type,
                    type_after(of_type(f.types, d.decision_type), o.success, us),
                ),
                samples: sample_kept(f.samples, us),
            }
        },
    }
}

/// A decision is not too old.
pub open spec fn still_young(d: Decision, now: Instant, max_age: nat) -> bool {
    d.timestamp.nanos + max_age > now.nanos
}

/// The decisions that are not too old.
pub open spec fn young_ones(decisions: Seq<Decision>, now: Instant, max_age: nat) -> Seq<Decision>
    decreases decisions.len(),
{
    if decisions.len() == 0 {
        seq![]
    } else {
        let front = young_ones(decisions.drop_last(), now, max_age);
        if still_young(decisions.last(), now, max_age) {
            front.push(decisions.last())
        } else {
            front
        }
    }
}

/// Number of decisions of a kind.
pub open spec fn count_of(decisions: Seq<Decision>, kind: DecisionType) -> nat
    decreases decisions.len(),
{
    if decisions.len() == 0 {
        0
    } else {
        count_of(decisions.drop_last(), kind) + if decisions.last().decision_type == kind {
            1nat
        } else {
            0
        }
    }
}

/// A kind of decision with its pending decisions counted anew.
pub open spec fn recounted(r: TypeRecord, decisions: Seq<Decision>, kind: DecisionType) -> TypeRecord {
    TypeRecord {
        pending: if r.total == 0 {
            0
        } else {
            count_of(decisions, kind) as u64
        },
        ..r
    }
}

/// What is kept after old decisions were removed.
pub open spec fn pruned(f: FeedbackView, now: Instant, max_age: nat) -> FeedbackView {
    let decisions = young_ones(f.decisions, now, max_age);
    FeedbackView {
        decisions,
        types: TypeRecords {
            route: recounted(f.types.route, decisions, DecisionType::Route),
            load_balance: recounted(f.types.load_balance, decisions, DecisionType::LoadBalance),
            retry: recounted(f.types.retry, decisions, DecisionType::Retry),
            fallback: recounted(f.types.fallback, decisions, DecisionType::Fallback),
        },
        ..f
    }
}

/// Decisions and outcomes in memory.
#[derive(Debug)]
pub struct InMemoryFeedback {
    decisions: Vec<Decision>,
    target_stats: StringMap<TargetRecord>,
    type_stats: TypeRecords,
    latency_samples: Vec<u64>,
    clock: Clock,
}

impl View for InMemoryFeedback {
    type V = FeedbackView;

    closed spec fn view(&self) -> FeedbackView {
        FeedbackView {
            decisions: self.decisions@,
            targets: self.target_stats@,
            types: self.type_stats,
            samples: self.latency_samples@,
        }
    }
}

/// Nothing is kept.
pub open spec fn no_feedback() -> FeedbackView {
    FeedbackView {
        decisions: seq![],
        targets: Map::empty(),
        types: TypeRecords {
            route: new_type_record(),
            load_balance: new_type_record(),
            retry: new_type_record(),
            fallback: new_type_record(),
        },
        samples: seq![],
    }
}

/// Number of decisions of a kind.
fn count_kind(decisions: &Vec<Decision>, kind: DecisionType) -> (n: u64)
    ensures
        n == count_of(decisions@, kind),
{
    let mut n: u64 = 0;
    let mut i: usize = 0;
    while i < decisions.len()
        invariant
            i <= decisions.len(),
            n <= i,
            n == count_of(decisions@.take(i as int), kind),
        decreases decisions.len() - i,
    {
        assert(decisions@.take(i + 1).drop_last() == decisions@.take(i as int));
        if decisions[i].decision_type == kind {
            n = n + 1;
        }
        i += 1;
    }
    assert(decisions@.take(i as int) == decisions@);
    n
}

fn recount(r: TypeRecord, decisions: &Vec<Decision>, kind: DecisionType) -> (after: TypeRecord)
    ensures
        after == recounted(r, decisions@, kind),
{
    let pending: u64 = if r.total == 0 {
        0
    } else {
        count_kind(decisions, kind)
    };
    TypeRecord { pending, ..r }
}

impl InMemoryFeedback {
    /// Nothing.
    pub fn new() -> (f: Self)
        ensures
            f@ == no_feedback(),
    {
        let f = InMemoryFeedback {
            decisions: Vec::new(),
            target_stats: StringMap::new(),
            type_stats: TypeRecords {
                route: TypeRecord::new(),
                load_balance: TypeRecord::new(),
                retry: TypeRecord::new(),
                fallback: TypeRecord::new(),
            },
            latency_samples: Vec::new(),
            clock: Clock::new(),
        };
        assert(f@ =~= no_feedback());
        f
    }

    /// The time now, by the clock to which the decisions are timed.
    pub fn now(&self) -> Instant {
        self.clock.now()
    }

    /// Number of decisions of which nothing has come yet.
    pub fn pending_count(&self) -> (n: usize)
        ensures
            n == self@.decisions.len(),
    {
        self.decisions.len()
    }

    /// Number of targets.
    pub fn target_count(&self) -> (n: usize)
        ensures
            n == self@.targets.dom().len(),
    {
        self.target_stats.len()
    }

    fn position(&self, id: DecisionId) -> (p: Option<usize>)
        ensures
            match p {
                Some(i) => i < self@.decisions.len() && position_of(self@.decisions, id) == Some(
                    i as int,
                ),
                None => position_of(self@.decisions, id) is None,
            },
    {
        let ghost all = self.decisions@;
        let mut i: usize = self.decisions.len();
        assert(all.take(i as int) == all);
        while i > 0
            invariant
                i <= all.len(),
                all == self.decisions@,
                position_of(all, id) == position_of(all.take(i as int), id),
            decreases i,
        {
            assert(all.take(i as int).drop_last() == all.take(i - 1));
            assert(all.take(i as int).last() == all[i - 1]);
            if self.decisions[i - 1].id == id {
                return Some(i - 1);
            }
            i -= 1;
        }
        None
    }

    /// Notes a decision.
    pub fn record_decision(&mut self, decision: Decision) -> (id: DecisionId)
        ensures
            id == decision.id,
            final(self)@ == decided(old(self)@, decision),
    {
        let id = decision.id;
        let kind = decision.decision_type;
        if self.decisions.len() >= MAX_DECISIONS {
            let ghost all = self.decisions@;
            let kept = self.decisions.split_off(PRUNED_DECISIONS);
            assert(kept@ =~= all.skip(PRUNED_DECISIONS as int));
            self.decisions = kept;
        }
        match self.position(id) {
            Some(i) => {
                self.decisions.set(i, decision);
            },
            None => {
                self.decisions.push(decision);
            },
        }
        let r = self.type_stats.get(kind);
        self.type_stats.set(
            kind,
            TypeRecord {
                total: r.total.saturating_add(1),
                pending: r.pending.saturating_add(1),
                ..r
            },
        );
        assert(self@ =~= decided(old(self)@, decision));
        id
    }

    /// Notes an outcome at a moment. The answer is the target of the decision,
    /// where the decision is known.
    pub fn record_outcome_at(&mut self, outcome: Outcome, now: &Instant) -> (target: Option<String>)
        ensures
            final(self)@ == outcome_noted(old(self)@, outcome, *now),
            match position_of(old(self)@.decisions, outcome.decision_id) {
                Some(i) => target matches Some(t) && t@ == old(self)@.decisions[i].target@,
                None => target is None,
            },
    {
        let i = match self.position(outcome.decision_id) {
            Some(i) => i,
            None => {
                return None;
            },
        };
        let decision = self.decisions.remove(i);
        let latency_us: u64 = (outcome.latency.as_micros() % 0x1_0000_0000_0000_0000u128) as u64;
        let mut record = match self.target_stats.get(decision.target.as_str()) {
            Some(r) => *r,
            None => TargetRecord::new(),
        };
        record.record_outcome(outcome.success, latency_us, now);
        self.target_stats.insert(decision.target.clone(), record);
        let r = self.type_stats.get(decision.decision_type);
        if r.total > 0 {
            let pending: u64 = r.pending.saturating_sub(1);
            let after = if outcome.success {
                TypeRecord {
                    pending,
                    successes: r.successes.saturating_add(1),
                    sum_latency_us: r.sum_latency_us.saturating_add(latency_us),
                    ..r
                }
            } else {
                TypeRecord {
                    pending,
                    failures: r.failures.saturating_add(1),
                    sum_latency_us: r.sum_latency_us.saturating_add(latency_us),
                    ..r
                }
            };
            self.type_stats.set(decision.decision_type, after);
        }
        if self.latency_samples.len() >= MAX_SAMPLES {
            let ghost all = self.latency_samples@;
            let kept = self.latency_samples.split_off(PRUNED_SAMPLES);
            assert(kept@ =~= all.skip(PRUNED_SAMPLES as int));
            self.latency_samples = kept;
        }
        self.latency_samples.push(latency_us);
        assert(self@ =~= outcome_noted(old(self)@, outcome, *now));
        Some(decision.target)
    }

    /// Notes an outcome now.
    pub fn record_outcome(&mut self, outcome: Outcome) -> (target: Option<String>)
        ensures
            exists|now: Instant|
                final(self)@ == #[trigger] outcome_noted(old(self)@, outcome, now),
            match position_of(old(self)@.decisions, outcome.decision_id) {
                Some(i) => target matches Some(t) && t@ == old(self)@.decisions[i].target@,
                None => target is None,
            },
    {
        let now = self.clock.now();
        self.record_outcome_at(outcome, &now)
    }

    /// Notes the moving average of the latency of a target that is known.
    pub fn note_average(&mut self, target: &str, bits: u64)
        ensures
            final(self)@ == if old(self)@.targets.dom().contains(target@) {
                FeedbackView {
                    targets: old(self)@.targets.insert(
                        target@,
                        TargetRecord {
                            ema_latency_bits: bits,
                            ..old(self)@.targets[target@]
                        },
                    ),
                    ..old(self)@
                }
            } else {
                old(self)@
            },
    {
        let known = match self.target_stats.get(target) {
            Some(r) => Some(*r),
            None => None,
        };
        if let Some(r) = known {
            self.target_stats.insert(
                target.to_string(),
                TargetRecord { ema_latency_bits: bits, ..r },
            );
        }
    }

    /// Statistics of a kind of decision.
    pub fn stats(&self, decision_type: DecisionType) -> (s: DecisionStats)
        ensures
            type_stats(of_type(self@.types, decision_type), self@.samples, s),
    {
        self.type_stats.get(decision_type).to_stats(&self.latency_samples)
    }

    /// Statistics of a target.
    pub fn target_stats(&self, target: &str) -> (s: TargetStats)
        ensures
            s@ == if self@.targets.dom().contains(target@) {
                target_view(target@, self@.targets[target@])
            } else {
                no_stats(target@)
            },
    {
        match self.target_stats.get(target) {
            Some(r) => r.to_stats(target),
            None => TargetStats::new(target),
        }
    }

    /// The names of the targets, in the order in which they were first noted.
    pub closed spec fn target_order(&self) -> Seq<Seq<char>> {
        self.target_stats.order()
    }

    /// Statistics of all targets, those that succeed most often first.
    pub fn all_target_stats(&self) -> (all: Vec<TargetStats>)
        ensures
            self.target_order().to_set() == self@.targets.dom(),
            self.target_order().no_duplicates(),
            views_of(all@) == ranked(self@.targets, self.target_order()),
            best_first(views_of(all@)),
    {
        let n: usize = self.target_stats.len();
        let ghost order = self.target_stats.order();
        let mut all: Vec<TargetStats> = Vec::new();
        let mut i: usize = 0;
        while i < n
            invariant
                i <= n,
                n == order.len(),
                order == self.target_stats.order(),
                views_of(all@) == ranked(self.target_stats@, order.take(i as int)),
                best_first(views_of(all@)),
            decreases n - i,
        {
            let (name, record) = self.target_stats.entry(i);
            let stats = record.to_stats(name.as_str());
            assert(order.take(i + 1).drop_last() == order.take(i as int));
            assert(order.take(i + 1).last() == order[i as int]);
            rank(&mut all, stats);
            i += 1;
        }
        assert(order.take(i as int) == order);
        proof {
            crate::collections::map_order_lists_the_keys(&self.target_stats);
        }
        all
    }

    /// Removes the decisions that are too old at a moment.
    pub fn prune_at(&mut self, max_age: &Duration, now: &Instant)
        ensures
            final(self)@ == pruned(old(self)@, *now, max_age@),
    {
        let ghost all = self.decisions@;
        let mut rest: Vec<Decision> = Vec::new();
        std::mem::swap(&mut rest, &mut self.decisions);
        let mut backwards: Vec<Decision> = Vec::new();
        while rest.len() > 0
            invariant
                rest@.len() + backwards@.len() == all.len(),
                rest@ == all.take(rest@.len() as int),
                forall|j: int|
                    0 <= j < backwards@.len() ==> #[trigger] backwards@[j] == all[all.len() - 1
                        - j],
            decreases rest@.len(),
        {
            if let Some(d) = rest.pop() {
                backwards.push(d);
            }
        }
        let mut kept: Vec<Decision> = Vec::new();
        let age: u128 = max_age.as_nanos();
        while backwards.len() > 0
            invariant
                backwards@.len() <= all.len(),
                age == max_age@,
                forall|j: int|
                    0 <= j < backwards@.len() ==> #[trigger] backwards@[j] == all[all.len() - 1
                        - j],
                kept@ == young_ones(all.take(all.len() - backwards@.len()), *now, max_age@),
            decreases backwards@.len(),
        {
            let ghost done = all.len() - backwards@.len();
            if let Some(d) = backwards.pop() {
                assert(d == all[done]);
                assert(all.take(done + 1).drop_last() == all.take(done));
                assert(all.take(done + 1).last() == d);
                let young = if d.timestamp.nanos > now.nanos {
                    true
                } else {
                    now.nanos - d.timestamp.nanos < age
                };
                if young {
                    kept.push(d);
                }
            }
        }
        assert(all.take(all.len() as int) == all);
        self.decisions = kept;
        self.type_stats = TypeRecords {
            route: recount(self.type_stats.route, &self.decisions, DecisionType::Route),
            load_balance: recount(
                self.type_stats.load_balance,
                &self.decisions,
                DecisionType::LoadBalance,
            ),
            retry: recount(self.type_stats.retry, &self.decisions, DecisionType::Retry),
            fallback: recount(self.type_stats.fallback, &self.decisions, DecisionType::Fallback),
        };
        assert(self@ =~= pruned(old(self)@, *now, max_age@));
    }

    /// Removes the decisions that are too old now.
    pub fn prune(&mut self, max_age: &Duration)
        ensures
            exists|now: Instant|
                final(self)@ == #[trigger] pruned(old(self)@, now, max_age@),
    {
        let now = self.clock.now();
        self.prune_at(max_age, &now)
    }
}

impl Default for InMemoryFeedback {
    fn default() -> (f: Self)
        ensures
            f@ == no_feedback(),
    {
        InMemoryFeedback::new()
    }
}

/// What statistics say.
pub open spec fn views_of(all: Seq<TargetStats>) -> Seq<TargetStatsView> {
    all.map_values(|s: TargetStats| s@)
}

/// Successes and failures of a target.
pub open spec fn record_in(s: TargetStatsView) -> (nat, nat) {
    record_of(s.successes, s.failures)
}

/// Targets are in the order of how often they succeed, the best first.
pub open spec fn best_first(all: Seq<TargetStatsView>) -> bool {
    forall|i: int, j: int|
        0 <= i < j < all.len() ==> !rate_less(record_in(#[trigger] all[i]), record_in(#[trigger] all[j]))
}

/// Number of targets in front of another one.
pub open spec fn rank_of(all: Seq<TargetStatsView>, s: TargetStatsView) -> nat
    decreases all.len(),
{
    if all.len() == 0 {
        0
    } else if rate_less(record_in(all.last()), record_in(s)) {
        rank_of(all.drop_last(), s)
    } else {
        all.len()
    }
}

/// The targets of some names, those that succeed most often first. Of targets
/// that succeed equally often the order stays.
pub open spec fn ranked(targets: Map<Seq<char>, TargetRecord>, names: Seq<Seq<char>>) -> Seq<
    TargetStatsView,
>
    decreases names.len(),
{
    if names.len() == 0 {
        seq![]
    } else {
        let front = ranked(targets, names.drop_last());
        let s = target_view(names.last(), targets[names.last()]);
        front.insert(rank_of(front, s) as int, s)
    }
}

proof fn not_less_is_transitive(a: (nat, nat), b: (nat, nat), c: (nat, nat))
    requires
        !rate_less(a, b),
        !rate_less(b, c),
        b.0 + b.1 > 0,
    ensures
        !rate_less(a, c),
{
    let (a0, a1) = a;
    let (b0, b1) = b;
    let (c0, c1) = c;
    if b1 == 0 {
        assert(a1 == 0) by (nonlinear_arith)
            requires
                a0 * b1 >= b0 * a1,
                b1 == 0,
                b0 > 0,
        ;
        assert(c0 * a1 == 0) by (nonlinear_arith)
            requires
                a1 == 0,
        ;
        assert(a0 * c1 >= 0) by (nonlinear_arith);
    } else {
        assert(a0 * b1 * c1 >= b0 * a1 * c1) by (nonlinear_arith)
            requires
                a0 * b1 >= b0 * a1,
        ;
        assert(b0 * c1 * a1 >= c0 * b1 * a1) by (nonlinear_arith)
            requires
                b0 * c1 >= c0 * b1,
        ;
        assert(a0 * c1 * b1 >= c0 * a1 * b1) by (nonlinear_arith)
            requires
                a0 * b1 * c1 >= b0 * a1 * c1,
                b0 * c1 * a1 >= c0 * b1 * a1,
        ;
        assert(a0 * c1 >= c0 * a1) by (nonlinear_arith)
            requires
                a0 * c1 * b1 >= c0 * a1 * b1,
                b1 > 0,
        ;
    }
}

proof fn rank_splits(all: Seq<TargetStatsView>, s: TargetStatsView)
    requires
        best_first(all),
    ensures
        rank_of(all, s) <= all.len(),
        forall|i: int|
            0 <= i < rank_of(all, s) ==> !rate_less(record_in(#[trigger] all[i]), record_in(s)),
        forall|i: int|
            rank_of(all, s) <= i < all.len() ==> rate_less(
                record_in(#[trigger] all[i]),
                record_in(s),
            ),
    decreases all.len(),
{
    if all.len() > 0 {
        let last = all.len() - 1;
        if rate_less(record_in(all.last()), record_in(s)) {
            let front = all.drop_last();
            assert(best_first(front)) by {
                assert forall|i: int, j: int| 0 <= i < j < front.len() implies !rate_less(
                    record_in(#[trigger] front[i]),
                    record_in(#[trigger] front[j]),
                ) by {
                    assert(front[i] == all[i] && front[j] == all[j]);
                }
            }
            rank_splits(front, s);
            assert forall|i: int| 0 <= i < rank_of(all, s) implies !rate_less(
                record_in(#[trigger] all[i]),
                record_in(s),
            ) by {
                assert(front[i] == all[i]);
            }
            assert forall|i: int| rank_of(all, s) <= i < all.len() implies rate_less(
                record_in(#[trigger] all[i]),
                record_in(s),
            ) by {
                if i < front.len() {
                    assert(front[i] == all[i]);
                }
            }
        } else {
            assert forall|i: int| 0 <= i < all.len() implies !rate_less(
                record_in(#[trigger] all[i]),
                record_in(s),
            ) by {
                if i < last {
                    not_less_is_transitive(
                        record_in(all[i]),
                        record_in(all[last]),
                        record_in(s),
                    );
                }
            }
        }
    }
}

proof fn ranking_keeps_order(all: Seq<TargetStatsView>, s: TargetStatsView)
    requires
        best_first(all),
    ensures
        rank_of(all, s) <= all.len(),
        best_first(all.insert(rank_of(all, s) as int, s)),
{
    rank_splits(all, s);
    let p = rank_of(all, s) as int;
    let more = all.insert(p, s);
    assert forall|i: int, j: int| 0 <= i < j < more.len() implies !rate_less(
        record_in(#[trigger] more[i]),
        record_in(#[trigger] more[j]),
    ) by {
        let a = record_in(more[i]);
        let b = record_in(more[j]);
        if j == p {
            assert(more[i] == all[i]);
        } else if i == p {
            assert(more[j] == all[j - 1]);
            less_is_not_more(b, a);
        } else {
            let k = if i < p {
                i
            } else {
                i - 1
            };
            let l = if j < p {
                j
            } else {
                j - 1
            };
            assert(more[i] == all[k] && more[j] == all[l]);
        }
    }
}

proof fn less_is_not_more(a: (nat, nat), b: (nat, nat))
    requires
        rate_less(a, b),
    ensures
        !rate_less(b, a),
{
}

fn rank(all: &mut Vec<TargetStats>, s: TargetStats)
    requires
        best_first(views_of(old(all)@)),
    ensures
        views_of(final(all)@) == views_of(old(all)@).insert(
            rank_of(views_of(old(all)@), s@) as int,
            s@,
        ),
        best_first(views_of(final(all)@)),
{
    let ghost before = views_of(all@);
    let mut at: usize = all.len();
    assert(before.take(at as int) == before);
    proof {
        ranking_keeps_order(before, s@);
    }
    while at > 0 && all[at - 1].succeeds_less_than(&s)
        invariant
            at <= all.len(),
            before == views_of(all@),
            rank_of(before, s@) == rank_of(before.take(at as int), s@),
        decreases at,
    {
        assert(before.take(at as int).drop_last() == before.take(at - 1));
        assert(before.take(at as int).last() == all@[at - 1]@);
        at -= 1;
    }
    proof {
        if at > 0 {
            assert(before.take(at as int).last() == all@[at - 1]@);
        }
        assert(rank_of(before, s@) == at);
    }
    all.insert(at, s);
    assert(views_of(all@) =~= before.insert(at as int, s@));
}

/// A decision waits for its outcome until the outcome is noted, and an outcome
/// that is noted twice counts once.
pub proof fn outcomes_count_once(f: FeedbackView, d: Decision, o: Outcome, now: Instant)
    requires
        o.decision_id == d.id,
        f.decisions.len() < MAX_DECISIONS,
        position_of(f.decisions, d.id) is None,
    ensures
        ({
            let waiting = decided(f, d);
            let done = outcome_noted(waiting, o, now);
            &&& waiting.decisions == f.decisions.push(d)
            &&& done.decisions == f.decisions
            &&& outcome_noted(done, o, now) == done
        }),
{
    let waiting = f.decisions.push(d);
    assert(waiting.drop_last() == f.decisions);
    assert(position_of(waiting, d.id) == Some(f.decisions.len() as int));
    assert(waiting.remove(f.decisions.len() as int) =~= f.decisions);
}

/// No more decisions and latencies are kept than the limits allow.
pub proof fn feedback_stays_bounded(f: FeedbackView, d: Decision, o: Outcome, now: Instant)
    requires
        f.decisions.len() <= MAX_DECISIONS,
        f.samples.len() <= MAX_SAMPLES,
    ensures
        decided(f, d).decisions.len() <= MAX_DECISIONS,
        outcome_noted(f, o, now).samples.len() <= MAX_SAMPLES,
{
    let room = if f.decisions.len() >= MAX_DECISIONS {
        f.decisions.skip(PRUNED_DECISIONS as int)
    } else {
        f.decisions
    };
    position_in_range(room, d.id);
}

proof fn position_in_range(decisions: Seq<Decision>, id: DecisionId)
    ensures
        position_of(decisions, id) matches Some(i) ==> 0 <= i < decisions.len(),
    decreases decisions.len(),
{
    if decisions.len() > 0 {
        position_in_range(decisions.drop_last(), id);
    }
}

/// After old decisions were removed, none of those that are left is too old.
pub proof fn pruning_leaves_young_ones(f: FeedbackView, now: Instant, max_age: nat, i: int)
    requires
        0 <= i < pruned(f, now, max_age).decisions.len(),
    ensures
        still_young(pruned(f, now, max_age).decisions[i], now, max_age),
{
    all_young(f.decisions, now, max_age);
}

proof fn all_young(decisions: Seq<Decision>, now: Instant, max_age: nat)
    ensures
        ({
            let kept = young_ones(decisions, now, max_age);
            forall|i: int| 0 <= i < kept.len() ==> still_young(#[trigger] kept[i], now, max_age)
        }),
    decreases decisions.len(),
{
    if decisions.len() > 0 {
        let front = young_ones(decisions.drop_last(), now, max_age);
        let kept = young_ones(decisions, now, max_age);
        all_young(decisions.drop_last(), now, max_age);
        assert forall|i: int| 0 <= i < kept.len() implies still_young(
            #[trigger] kept[i],
            now,
            max_age,
        ) by {
            if i < front.len() {
                assert(kept[i] == front[i]);
            }
        }
    }
}

} // verus!
