//! What the statistics of decisions say, told by the decisions and their
//! outcomes.

use super::memory::{
    are_percentiles, ascending, best_first, decided, mean_latency, no_feedback, of_type,
    outcome_noted, percentile_index, position_of, pruned, rank_of, ranked, record_in, sorted_copy,
    target_record, target_view, type_stats, with_type, young_ones, FeedbackView, InMemoryFeedback,
    TargetRecord, TypeRecord, TypeRecords,
};
use super::types::{
    rate_less, Decision, DecisionContext, DecisionStats, DecisionType, Outcome, TargetStats,
    TargetStatsView,
};
use crate::text::opt_text;
use crate::time::Instant;
use vstd::prelude::*;

verus! {

/// The statistics of a kind of decision are those of that kind: to change one
/// kind leaves the others as they were.
pub proof fn kinds_are_counted_apart(
    t: TypeRecords,
    kind: DecisionType,
    other: DecisionType,
    r: TypeRecord,
)
    ensures
        of_type(with_type(t, kind, r), kind) == r,
        other != kind ==> of_type(with_type(t, kind, r), other) == of_type(t, other),
        of_type(t, DecisionType::Route) == t.route,
        of_type(t, DecisionType::LoadBalance) == t.load_balance,
        of_type(t, DecisionType::Retry) == t.retry,
        of_type(t, DecisionType::Fallback) == t.fallback,
{
}

/// A decision counts once for its kind, and waits for its outcome; the targets
/// and the latencies stay as they were.
pub proof fn decisions_are_counted(f: FeedbackView, d: Decision, other: DecisionType)
    requires
        of_type(f.types, d.decision_type).total < u64::MAX,
        of_type(f.types, d.decision_type).pending < u64::MAX,
        f.decisions.len() < 100_000,
        position_of(f.decisions, d.id) is None,
        other != d.decision_type,
    ensures
        ({
            let after = decided(f, d);
            let before = of_type(f.types, d.decision_type);
            let now = of_type(after.types, d.decision_type);
            &&& after.decisions == f.decisions.push(d)
            &&& now.total == before.total + 1
            &&& now.pending == before.pending + 1
            &&& now.successes == before.successes
            &&& now.failures == before.failures
            &&& now.sum_latency_us == before.sum_latency_us
            &&& of_type(after.types, other) == of_type(f.types, other)
            &&& after.targets == f.targets
            &&& after.samples == f.samples
        }),
{
}

/// An outcome counts once, for the target and the kind of its decision: as a
/// success or as a failure, with its latency in microseconds. An outcome of a
/// decision that is not known counts for nothing.
pub proof fn outcomes_are_counted(
    f: FeedbackView,
    o: Outcome,
    now: Instant,
    i: int,
    name: Seq<char>,
)
    requires
        position_of(f.decisions, o.decision_id) == Some(i),
        0 <= i < f.decisions.len(),
        f.samples.len() < 100_000,
        o.latency@ / 1000 <= u64::MAX,
        name != f.decisions[i].target@,
        ({
            let r = of_type(f.types, f.decisions[i].decision_type);
            let t = target_record(f.targets, f.decisions[i].target@);
            &&& 0 < r.total
            &&& r.successes < u64::MAX
            &&& r.failures < u64::MAX
            &&& r.sum_latency_us + o.latency@ / 1000 <= u64::MAX
            &&& t.total < u64::MAX
            &&& t.successes < u64::MAX
            &&& t.failures < u64::MAX
            &&& t.sum_latency_us + o.latency@ / 1000 <= u64::MAX
        }),
    ensures
        ({
            let d = f.decisions[i];
            let after = outcome_noted(f, o, now);
            let us = o.latency@ / 1000;
            let r = of_type(f.types, d.decision_type);
            let r2 = of_type(after.types, d.decision_type);
            let t = target_record(f.targets, d.target@);
            let t2 = target_record(after.targets, d.target@);
            &&& after.decisions == f.decisions.remove(i)
            &&& after.samples.len() == f.samples.len() + 1
            &&& after.samples.last() == us
            &&& after.targets.dom().contains(d.target@)
            &&& r2.total == r.total
            &&& r.pending > 0 ==> r2.pending == r.pending - 1
            &&& r.pending == 0 ==> r2.pending == 0
            &&& r2.sum_latency_us == r.sum_latency_us + us
            &&& o.success ==> r2.successes == r.successes + 1 && r2.failures == r.failures
            &&& !o.success ==> r2.failures == r.failures + 1 && r2.successes == r.successes
            &&& t2.total == t.total + 1
            &&& t2.sum_latency_us == t.sum_latency_us + us
            &&& o.success ==> t2.successes == t.successes + 1 && t2.failures == t.failures
            &&& !o.success ==> t2.failures == t.failures + 1 && t2.successes == t.successes
            &&& t2.last_update == Some(now)
            &&& target_record(after.targets, name) == target_record(f.targets, name)
        }),
{
    let us = o.latency@ / 1000;
    assert(us % 0x1_0000_0000_0000_0000 == us) by {
        vstd::arithmetic::div_mod::lemma_small_mod(us, 0x1_0000_0000_0000_0000);
    }
}

/// An outcome of a decision that is not known changes nothing.
pub proof fn unknown_outcomes_do_not_count(f: FeedbackView, o: Outcome, now: Instant)
    requires
        forall|i: int| 0 <= i < f.decisions.len() ==> (#[trigger] f.decisions[i]).id
            != o.decision_id,
    ensures
        outcome_noted(f, o, now) == f,
{
    decision_is_found(f.decisions, o.decision_id);
}

proof fn decision_is_found(decisions: Seq<Decision>, id: super::types::DecisionId)
    ensures
        position_of(decisions, id) matches Some(i) ==> 0 <= i < decisions.len() && decisions[i].id
            == id,
    decreases decisions.len(),
{
    if decisions.len() > 0 && decisions.last().id != id {
        decision_is_found(decisions.drop_last(), id);
    }
}

/// A decision is found by its ID: the last one that has it.
pub proof fn decisions_are_found_by_id(decisions: Seq<Decision>, i: int)
    requires
        0 <= i < decisions.len(),
        forall|j: int| i < j < decisions.len() ==> (#[trigger] decisions[j]).id
            != decisions[i].id,
    ensures
        position_of(decisions, decisions[i].id) == Some(i),
    decreases decisions.len(),
{
    let front = decisions.drop_last();
    if i < front.len() {
        assert(decisions[decisions.len() - 1].id != decisions[i].id);
        assert(front[i] == decisions[i]);
        assert forall|j: int| i < j < front.len() implies (#[trigger] front[j]).id
            != front[i].id by {
            assert(front[j] == decisions[j]);
        }
        decisions_are_found_by_id(front, i);
    }
}

/// The mean latency of a kind is that of the decisions that have an outcome,
/// and that of a target is that of all its outcomes, both rounded down.
pub proof fn means_are_rounded_down(r: TypeRecord, t: TargetRecord, name: Seq<char>)
    ensures
        r.successes + r.failures == 0 ==> mean_latency(r) == 0,
        r.successes + r.failures > 0 ==> mean_latency(r) == r.sum_latency_us as int / (r.successes
            + r.failures),
        target_view(name, t).name == name,
        target_view(name, t).total == t.total,
        target_view(name, t).successes == t.successes,
        target_view(name, t).failures == t.failures,
        t.total > 0 ==> target_view(name, t).avg_latency_us == t.sum_latency_us / t.total,
        t.total == 0 ==> target_view(name, t).avg_latency_us == 0,
{
    let n = r.successes + r.failures;
    if n > 0 {
        let q = r.sum_latency_us as int / n;
        assert(0 <= q <= r.sum_latency_us) by (nonlinear_arith)
            requires
                n > 0,
                q == r.sum_latency_us as int / n,
                r.sum_latency_us >= 0,
        ;
    }
}

/// The statistics of a kind are its counts; of a kind without decisions all are
/// zero.
pub proof fn statistics_are_the_counts(r: TypeRecord, samples: Seq<u64>, s: DecisionStats)
    requires
        type_stats(r, samples, s),
    ensures
        s.total == r.total,
        r.total > 0 ==> s.successes == r.successes && s.failures == r.failures && s.pending
            == r.pending,
        r.total == 0 ==> s.successes == 0 && s.failures == 0 && s.pending == 0 && s.avg_latency_us
            == 0 && s.p50_latency_us == 0 && s.p99_latency_us == 0,
{
}

/// A percentile is the value at its share of the way through the samples in
/// order: half of the way, nineteen twentieths, and ninety-nine hundredths.
pub proof fn percentiles_lie_on_their_share(samples: Seq<u64>, p: (u64, u64, u64))
    requires
        samples.len() > 0,
        are_percentiles(samples, p),
    ensures
        exists|sorted: Seq<u64>|
            #![trigger ascending(sorted)]
            {
                &&& ascending(sorted)
                &&& sorted.to_multiset() == samples.to_multiset()
                &&& sorted.len() == samples.len()
                &&& p.0 == sorted[samples.len() as int * 50 / 100]
                &&& p.1 == sorted[samples.len() as int * 95 / 100]
                &&& p.2 == sorted[samples.len() as int * 99 / 100]
            },
{
    let sorted = choose|sorted: Seq<u64>| #[trigger]
        sorted_copy(sorted, samples) && p == (
            sorted[percentile_index(samples.len(), 50)],
            sorted[percentile_index(samples.len(), 95)],
            sorted[percentile_index(samples.len(), 99)],
        );
    sorted.to_multiset_ensures();
    samples.to_multiset_ensures();
    assert(sorted.len() == samples.len());
    assert(ascending(sorted));
}

/// Targets come in the order of their share of successes, the best ones first.
/// A target without outcomes counts as one that always succeeds.
pub proof fn the_best_targets_come_first(all: Seq<TargetStatsView>, i: int, j: int)
    requires
        best_first(all),
        0 <= i < j < all.len(),
    ensures
        ({
            let (a, b) = (all[i], all[j]);
            &&& a.successes + a.failures > 0 && b.successes + b.failures > 0 ==> a.successes * (
            b.successes + b.failures) >= b.successes * (a.successes + a.failures)
            &&& a.failures > 0 ==> b.successes + b.failures > 0
        }),
{
    let (a, b) = (all[i], all[j]);
    let (x, y) = (record_in(a), record_in(b));
    assert(!rate_less(x, y));
    super::types::rates_compare_shares(x, y);
    if b.successes + b.failures == 0 && a.failures > 0 {
        assert(y == (1nat, 0nat));
        assert(x.0 * 0 < 1 * x.1);
        assert(rate_less(x, y));
    }
}

/// Pruning keeps the decisions that are younger than the age, and no others,
/// and counts anew how many wait; everything else stays.
pub proof fn pruning_keeps_the_young(f: FeedbackView, now: Instant, max_age: nat, d: Decision)
    ensures
        pruned(f, now, max_age).decisions.contains(d) <==> f.decisions.contains(d)
            && d.timestamp.nanos + max_age > now.nanos,
        pruned(f, now, max_age).targets == f.targets,
        pruned(f, now, max_age).samples == f.samples,
        pruned(f, now, max_age).types.route.total == f.types.route.total,
        pruned(f, now, max_age).types.route.successes == f.types.route.successes,
{
    young_kept(f.decisions, now, max_age, d);
}

proof fn young_kept(decisions: Seq<Decision>, now: Instant, max_age: nat, d: Decision)
    ensures
        young_ones(decisions, now, max_age).contains(d) <==> decisions.contains(d)
            && d.timestamp.nanos + max_age > now.nanos,
    decreases decisions.len(),
{
    if decisions.len() > 0 {
        let front = decisions.drop_last();
        young_kept(front, now, max_age, d);
        let before = young_ones(front, now, max_age);
        let after = young_ones(decisions, now, max_age);
        assert(decisions.last() == decisions[decisions.len() - 1]);
        if before.contains(d) {
            let k = choose|k: int| 0 <= k < before.len() && before[k] == d;
            assert(after[k] == d);
        }
        if after.contains(d) && !before.contains(d) {
            let k = choose|k: int| 0 <= k < after.len() && after[k] == d;
            if k < before.len() {
                assert(before[k] == d);
            }
        }
        if front.contains(d) {
            let k = choose|k: int| 0 <= k < front.len() && front[k] == d;
            assert(decisions[k] == d);
        }
        if decisions.contains(d) && !front.contains(d) {
            let k = choose|k: int| 0 <= k < decisions.len() && decisions[k] == d;
            if k < front.len() {
                assert(front[k] == d);
            }
            assert(decisions.last() == d);
            if d.timestamp.nanos + max_age > now.nanos {
                assert(after[after.len() - 1] == d);
            }
        }
    }
}

/// Without feedback nothing is known.
pub proof fn nothing_is_known_at_first(kind: DecisionType)
    ensures
        no_feedback().decisions.len() == 0,
        no_feedback().samples.len() == 0,
        no_feedback().targets.dom().len() == 0,
        of_type(no_feedback().types, kind).total == 0,
{
}

/// Of all targets each one is listed once, with its own statistics; a target
/// goes behind those that are no worse and before those that are worse.
pub proof fn every_target_is_listed(
    targets: Map<Seq<char>, TargetRecord>,
    names: Seq<Seq<char>>,
    i: int,
)
    requires
        0 <= i < names.len(),
    ensures
        ranked(targets, names).len() == names.len(),
        exists|k: int|
            0 <= k < ranked(targets, names).len() && #[trigger] ranked(targets, names)[k]
                == target_view(names[i], targets[names[i]]),
    decreases names.len(),
{
    ranks_lie_in_the_list(targets, names);
    let front = ranked(targets, names.drop_last());
    let s = target_view(names.last(), targets[names.last()]);
    let r = rank_of(front, s) as int;
    let all = ranked(targets, names);
    ranks_lie_in_the_list(targets, names.drop_last());
    rank_lies_in(front, s);
    assert(all == front.insert(r, s));
    if i == names.len() - 1 {
        assert(all[r] == s);
    } else {
        every_target_is_listed(targets, names.drop_last(), i);
        let k = choose|k: int|
            0 <= k < front.len() && #[trigger] front[k] == target_view(
                names.drop_last()[i],
                targets[names.drop_last()[i]],
            );
        if k < r {
            assert(all[k] == front[k]);
        } else {
            assert(all[k + 1] == front[k]);
        }
    }
}

proof fn rank_lies_in(all: Seq<TargetStatsView>, s: TargetStatsView)
    ensures
        rank_of(all, s) <= all.len(),
    decreases all.len(),
{
    if all.len() > 0 {
        rank_lies_in(all.drop_last(), s);
    }
}

proof fn ranks_lie_in_the_list(targets: Map<Seq<char>, TargetRecord>, names: Seq<Seq<char>>)
    ensures
        ranked(targets, names).len() == names.len(),
    decreases names.len(),
{
    if names.len() > 0 {
        ranks_lie_in_the_list(targets, names.drop_last());
        rank_lies_in(
            ranked(targets, names.drop_last()),
            target_view(names.last(), targets[names.last()]),
        );
    }
}

/// Of a target that nothing is known of nothing is counted, and of any other
/// one what was noted.
pub proof fn unknown_targets_have_no_statistics(
    f: InMemoryFeedback,
    target: &str,
    s: TargetStats,
)
    requires
        call_ensures(InMemoryFeedback::target_stats, (&f, target), s),
    ensures
        s@.name == target@,
        !f@.targets.contains_key(target@) ==> s@.total == 0 && s@.successes == 0 && s@.failures == 0
            && s@.avg_latency_us == 0 && s@.last_update is None,
        f@.targets.contains_key(target@) ==> s@.total == f@.targets[target@].total
            && s@.successes == f@.targets[target@].successes && s@.failures
            == f@.targets[target@].failures,
{
}

/// What is known of a message, and of a target, says what it holds.
pub proof fn contexts_say_what_they_hold(c: DecisionContext, s: TargetStats)
    ensures
        c@.destination == opt_text(c.destination),
        c@.source == opt_text(c.source),
        c@.sender_id == opt_text(c.sender_id),
        c@.system_id == opt_text(c.system_id),
        c@.route_name == opt_text(c.route_name),
        c@.cluster_name == opt_text(c.cluster_name),
        c@.attempt == c.attempt,
        c@.fallback_from == opt_text(c.fallback_from),
        s@.name == s.name@ && s@.total == s.total && s@.successes == s.successes && s@.failures
            == s.failures,
        s@.avg_latency_us == s.avg_latency_us && s@.last_update == s.last_update,
        s@.ema_latency_bits == s.ema_latency_bits,
{
}

} // verus!
