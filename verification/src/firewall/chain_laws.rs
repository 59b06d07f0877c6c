//! How the chains of a firewall follow each other, and what is counted of them.

use super::context::{Effect, EffectView, EvaluationContext, EvaluationResult, EvaluationResultView};
use super::engine::{
    acted, all_hit, all_hold, all_named_hits, chain_named, chain_run, chains_run, first_match, hit,
    named_hits, rule_total, ChainView, CompiledCondition, CompiledFirewall, Condition,
    FirewallStats, Moment, RuleView, StringMatcher, TextTest,
};
use super::types::{ActionConfig, Policy};
use crate::text::opt_text;
use vstd::prelude::*;
use vstd::utf8::encode_utf8;

verus! {

/// A chain has one rule, which is switched on and has no conditions.
pub open spec fn always_does(chain: ChainView, action: ActionConfig) -> bool {
    &&& chain.rules.len() == 1
    &&& chain.rules[0].enabled
    &&& chain.rules[0].conditions.len() == 0
    &&& chain.rules[0].action == action
}

/// What a policy says.
pub open spec fn says(policy: Policy, answer: EvaluationResultView) -> bool {
    match policy {
        Policy::Accept => answer is Accept,
        Policy::Drop => answer is Drop,
        Policy::Reject => answer == (EvaluationResultView::Reject { status: 8, reason: None }),
    }
}

proof fn the_rule_acts(
    f: CompiledFirewall,
    c: int,
    action: ActionConfig,
    ctx: EvaluationContext,
    at: Moment,
    jumps: nat,
)
    requires
        0 <= c < f.chains().len(),
        always_does(f.chains()[c], action),
    ensures
        ({
            let run = chain_run(f.chains(), c, ctx, f.lists(), f.rates(), at, jumps);
            let done = acted(f.chains(), action, ctx, f.lists(), f.rates(), at, jumps);
            &&& run.answer == done.answer
            &&& run.rates == done.rates
            &&& run.effects == done.effects
            &&& run.hits == seq![(c as nat, 0nat)] + done.hits
        }),
{
    let rules = f.chains()[c].rules;
    assert(rules[0].conditions =~= seq![]);
    reveal_with_fuel(first_match, 2);
    reveal_with_fuel(all_hold, 2);
    let done = acted(f.chains(), action, ctx, f.lists(), f.rates(), at, jumps);
    let run = chain_run(f.chains(), c, ctx, f.lists(), f.rates(), at, jumps);
    assert(run.effects =~= done.effects);
    assert(run.hits =~= seq![(c as nat, 0nat)] + done.hits);
}

/// A jump hands the message to the first chain of the name, and that chain's
/// policy answers where it has no rules. Where there is no such chain, the
/// message goes on.
pub proof fn jumps_lead_to_the_named_chain(
    before: CompiledFirewall,
    after: CompiledFirewall,
    name: String,
    ctx: EvaluationContext,
    at: Moment,
    answer: EvaluationResultView,
    effects: Seq<EffectView>,
)
    requires
        before.enabled(),
        before.chains().len() == 2,
        before.chains()[0].chain_type is Input,
        !(before.chains()[1].chain_type is Input),
        always_does(before.chains()[0], ActionConfig::Jump { chain: name }),
        before.chains()[0].name != name@,
        before.chains()[1].rules.len() == 0,
        before.evaluated(after, ctx, at, answer, effects),
    ensures
        before.chains()[1].name == name@ ==> says(before.chains()[1].policy, answer),
        before.chains()[1].name != name@ ==> says(before.default_policy(), answer),
        effects.len() == 0,
        after.rates() == before.rates(),
{
    let chains = before.chains();
    the_rule_acts(before, 0, ActionConfig::Jump { chain: name }, ctx, at, 2);
    assert(chains.drop_last().drop_last() =~= seq![]);
    assert(chains.drop_last().last() == chains[0]);
    assert(chains.last() == chains[1]);
    reveal_with_fuel(chain_named, 3);
    reveal_with_fuel(first_match, 2);
    reveal_with_fuel(chains_run, 3);
    reveal_with_fuel(acted, 2);
    reveal_with_fuel(chain_run, 2);
    assert(chains[1].rules =~= seq![]);
}

/// Chains are asked one after the other: the next one only where the one before
/// has no answer that ends the evaluation.
pub proof fn chains_are_asked_in_order(
    before: CompiledFirewall,
    after: CompiledFirewall,
    action: ActionConfig,
    ctx: EvaluationContext,
    at: Moment,
    answer: EvaluationResultView,
    effects: Seq<EffectView>,
)
    requires
        before.enabled(),
        before.chains().len() == 2,
        before.chains()[0].chain_type is Input,
        before.chains()[1].chain_type is Input,
        always_does(before.chains()[0], action),
        before.chains()[1].rules.len() == 0,
        before.evaluated(after, ctx, at, answer, effects),
    ensures
        action is Accept ==> answer is Accept,
        action is Drop ==> answer is Drop,
        action is Quarantine ==> answer is Quarantine,
        action matches ActionConfig::Reject { status, reason } ==> answer is Reject
            && answer->status == status,
        (action is Return || action is Delay || action is Mark || action is Modify
            || action is Plugin) ==> says(before.chains()[1].policy, answer),
{
    let chains = before.chains();
    the_rule_acts(before, 0, action, ctx, at, 2);
    reveal_with_fuel(first_match, 2);
    reveal_with_fuel(chains_run, 3);
    assert(chains[1].rules =~= seq![]);
}

/// A rule that matches is counted once, and no other one.
pub proof fn matches_are_counted(counters: Seq<Seq<u64>>, c: nat, i: nat, d: int, j: int)
    requires
        c < counters.len(),
        i < counters[c as int].len(),
        counters[c as int][i as int] < u64::MAX,
        0 <= d < counters.len(),
        0 <= j < counters[d].len(),
    ensures
        all_hit(counters, seq![]) == counters,
        all_hit(counters, seq![(c, i)]) == hit(counters, (c, i)),
        hit(counters, (c, i))[d][j] == counters[d][j] + if c == d && i == j {
            1int
        } else {
            0
        },
{
    assert(seq![(c, i)].drop_last() =~= seq![]);
    reveal_with_fuel(all_hit, 2);
}

/// Statistics tell the number of chains and of all their rules, and how often
/// each rule with a name has matched; of two rules of a name the later one.
pub proof fn statistics_tell_the_matches(
    f: CompiledFirewall,
    stats: FirewallStats,
    c: int,
    i: int,
)
    requires
        call_ensures(CompiledFirewall::get_stats, (&f,), stats),
        f.counters().len() == f.chains().len(),
        forall|k: int|
            0 <= k < f.chains().len() ==> (#[trigger] f.counters()[k]).len()
                == f.chains()[k].rules.len(),
        0 <= c < f.chains().len(),
        0 <= i < f.chains()[c].rules.len(),
    ensures
        stats.enabled == f.enabled(),
        stats.chains == f.chains().len(),
        stats.lists == f.list_count(),
        stats.rules >= f.chains()[c].rules.len() || stats.rules == usize::MAX,
        f.chains()[c].rules[i].name matches Some(name) ==> stats.rule_hits@.contains_key(name) && (
        only_here(f.chains(), c, i, name) ==> stats.rule_hits@[name] == f.counters()[c][i]),
{
    no_rule_is_left_out(f.chains(), c);
    if let Some(name) = f.chains()[c].rules[i].name {
        hits_of_all(f.chains(), f.counters(), name, c, i);
    }
}

/// No other rule has the name of a rule.
pub open spec fn only_here(chains: Seq<ChainView>, c: int, i: int, name: Seq<char>) -> bool {
    forall|d: int, j: int|
        0 <= d < chains.len() && 0 <= j < chains[d].rules.len() && (d != c || j != i)
            ==> #[trigger] chains[d].rules[j].name != Some(name)
}

proof fn no_rule_is_left_out(chains: Seq<ChainView>, c: int)
    requires
        0 <= c < chains.len(),
    ensures
        rule_total(chains) >= chains[c].rules.len(),
    decreases chains.len(),
{
    if c < chains.len() - 1 {
        no_rule_is_left_out(chains.drop_last(), c);
    }
}

proof fn hits_of_rules(
    rules: Seq<RuleView>,
    counters: Seq<u64>,
    before: Map<Seq<char>, u64>,
    name: Seq<char>,
)
    requires
        rules.len() == counters.len(),
    ensures
        before.contains_key(name) ==> named_hits(rules, counters, before).contains_key(name),
        forall|i: int|
            0 <= i < rules.len() && (#[trigger] rules[i]).name == Some(name) ==> named_hits(
                rules,
                counters,
                before,
            ).contains_key(name) && ((forall|j: int|
                0 <= j < rules.len() && j != i ==> (#[trigger] rules[j]).name != Some(name))
                ==> named_hits(rules, counters, before)[name] == counters[i]),
        (forall|j: int| 0 <= j < rules.len() ==> (#[trigger] rules[j]).name != Some(name)) ==> (
        named_hits(rules, counters, before).contains_key(name) <==> before.contains_key(name)) && (
        before.contains_key(name) ==> named_hits(rules, counters, before)[name] == before[name]),
    decreases rules.len(),
{
    if rules.len() > 0 {
        let front = rules.drop_last();
        hits_of_rules(front, counters.drop_last(), before, name);
        assert(forall|j: int| 0 <= j < front.len() ==> (#[trigger] front[j]) == rules[j]);
        assert(rules.last() == rules[rules.len() - 1]);
        assert forall|i: int|
            0 <= i < rules.len() && (#[trigger] rules[i]).name == Some(name) implies named_hits(
            rules,
            counters,
            before,
        ).contains_key(name) && ((forall|j: int|
            0 <= j < rules.len() && j != i ==> (#[trigger] rules[j]).name != Some(name))
            ==> named_hits(rules, counters, before)[name] == counters[i]) by {
            if i < front.len() {
                assert(front[i].name == Some(name));
                if forall|j: int|
                    0 <= j < rules.len() && j != i ==> (#[trigger] rules[j]).name != Some(name) {
                    assert(forall|j: int|
                        0 <= j < front.len() && j != i ==> (#[trigger] front[j]).name != Some(
                            name,
                        ));
                }
            }
        }
    }
}

proof fn hits_of_all(
    chains: Seq<ChainView>,
    counters: Seq<Seq<u64>>,
    name: Seq<char>,
    c: int,
    i: int,
)
    requires
        counters.len() == chains.len(),
        forall|k: int|
            0 <= k < chains.len() ==> (#[trigger] counters[k]).len() == chains[k].rules.len(),
        0 <= c < chains.len(),
        0 <= i < chains[c].rules.len(),
        chains[c].rules[i].name == Some(name),
    ensures
        all_named_hits(chains, counters).contains_key(name),
        only_here(chains, c, i, name) ==> all_named_hits(chains, counters)[name] == counters[c][i],
    decreases chains.len(),
{
    let n = chains.len() - 1;
    let front = chains.drop_last();
    let before = all_named_hits(front, counters.drop_last());
    assert(counters[n].len() == chains[n].rules.len());
    hits_of_rules(chains[n].rules, counters[n], before, name);
    if c < n {
        assert forall|k: int| 0 <= k < front.len() implies (#[trigger] counters.drop_last()[k]).len()
            == front[k].rules.len() by {
            assert(counters[k].len() == chains[k].rules.len());
        }
        assert(front[c] == chains[c]);
        hits_of_all(front, counters.drop_last(), name, c, i);
        if only_here(chains, c, i, name) {
            assert forall|d: int, j: int|
                0 <= d < front.len() && 0 <= j < front[d].rules.len() && (d != c || j
                    != i) implies #[trigger] front[d].rules[j].name != Some(name) by {
                assert(chains[d].rules[j].name != Some(name));
            }
            assert forall|j: int| 0 <= j < chains[n].rules.len() implies (
            #[trigger] chains[n].rules[j]).name != Some(name) by {
                assert(chains[n].rules[j].name != Some(name));
            }
        }
    } else {
        if only_here(chains, c, i, name) {
            assert forall|j: int| 0 <= j < chains[n].rules.len() && j != i implies (
            #[trigger] chains[n].rules[j]).name != Some(name) by {
                assert(chains[n].rules[j].name != Some(name));
            }
        }
    }
}

/// The rules of all chains are added up.
pub proof fn rules_are_added_up(chains: Seq<ChainView>, chain: ChainView)
    ensures
        rule_total(seq![]) == 0,
        rule_total(chains.push(chain)) == rule_total(chains) + chain.rules.len(),
{
    assert(chains.push(chain).drop_last() =~= chains);
}

/// An answer says what it stands for, with the status, the reason and the new
/// texts that it holds.
pub proof fn answers_say_what_they_hold(r: EvaluationResult)
    ensures
        r is Accept <==> r@ is Accept,
        r is Drop <==> r@ is Drop,
        r is Quarantine <==> r@ is Quarantine,
        r is Continue <==> r@ is Continue,
        r is Reject <==> r@ is Reject,
        r is Modify <==> r@ is Modify,
        r matches EvaluationResult::Reject { status, reason } ==> r@->status == status && r@->reason
            == opt_text(reason),
        r matches EvaluationResult::Modify { source, destination, content } ==> r@->source
            == opt_text(source) && r@->destination == opt_text(destination) && r@->content
            == opt_text(content),
{
}

/// What is to be done says what it holds.
pub proof fn effects_say_what_they_hold(e: Effect)
    ensures
        e matches Effect::Log { level, text } ==> e@ == (EffectView::Log { level, text: text@ }),
        e matches Effect::Delay { duration } ==> e@ == (EffectView::Delay { duration: duration@ }),
        e matches Effect::Mark { key, value } ==> e@ == (EffectView::Mark {
            key: key@,
            value: value@,
        }),
        e matches Effect::Modify { source, destination, content } ==> e@ == (EffectView::Modify {
            source: opt_text(source),
            destination: opt_text(destination),
            content: opt_text(content),
        }),
{
}

/// A text that may be missing is there exactly when it is there.
pub proof fn texts_may_be_missing(t: Option<String>)
    ensures
        opt_text(t) is Some <==> t is Some,
        t matches Some(x) ==> opt_text(t) == Some(x@),
{
}

/// A condition that is compiled looks at what it is about, and its values stand
/// in their place.
pub proof fn compiled_conditions_say_what_they_hold(c: CompiledCondition)
    ensures
        c is Source <==> c@ is Source,
        c is Destination <==> c@ is Destination,
        c is SenderId <==> c@ is SenderId,
        c is SystemId <==> c@ is SystemId,
        c is Content <==> c@ is Content,
        c is ClientIp <==> c@ is ClientIp,
        c matches CompiledCondition::Source(m) ==> c@ == Condition::Source(m@.0, m@.1),
        c matches CompiledCondition::Destination(m) ==> c@ == Condition::Destination(m@.0, m@.1),
        c matches CompiledCondition::SenderId(m) ==> c@ == Condition::SenderId(m@.0, m@.1),
        c matches CompiledCondition::SystemId(m) ==> c@ == Condition::SystemId(m@.0, m@.1),
        c matches CompiledCondition::EsmClass { value, mask } ==> c@ == Condition::EsmClass(
            value,
            mask,
        ),
        c matches CompiledCondition::ProtocolId { value } ==> c@ == Condition::ProtocolId(value),
        c matches CompiledCondition::DataCoding { value } ==> c@ == Condition::DataCoding(value),
        c matches CompiledCondition::ContentLength { min, max, negate } ==> c@
            == Condition::ContentLength(min, max, negate),
        c matches CompiledCondition::TlsEnabled { value } ==> c@ == Condition::TlsEnabled(value),
        c matches CompiledCondition::Rate { key, window, threshold } ==> c@ == Condition::Rate(
            key,
            window@,
            threshold,
        ),
        c matches CompiledCondition::DayOfWeek { days } ==> c@ == Condition::DayOfWeek(days@),
        c matches CompiledCondition::Not(inner) ==> c@ == Condition::Not(Box::new(inner@)),
        c matches CompiledCondition::And(cs) ==> c@ is And,
        c matches CompiledCondition::Or(cs) ==> c@ is Or,
{
}

/// A matcher looks for its text in its own way.
pub proof fn matchers_say_what_they_hold(m: StringMatcher)
    ensures
        m matches StringMatcher::Exact { value, negate } ==> m@ == (TextTest::Exact(value@), negate),
        m matches StringMatcher::Prefix { value, negate } ==> m@ == (
            TextTest::Prefix(value@),
            negate,
        ),
        m matches StringMatcher::Suffix { value, negate } ==> m@ == (
            TextTest::Suffix(value@),
            negate,
        ),
        m matches StringMatcher::Contains { value, negate } ==> m@ == (
            TextTest::Contains(value@),
            negate,
        ),
        m matches StringMatcher::List { list_name, negate } ==> m@ == (
            TextTest::List(list_name@),
            negate,
        ),
{
}

/// A new message has its addresses, its client and its content, and nothing
/// else.
pub proof fn new_messages_hold_what_they_are_made_of(
    ctx: EvaluationContext,
    source: Seq<char>,
    destination: Seq<char>,
    system_id: Seq<char>,
    content: Seq<char>,
)
    requires
        ctx.fresh(source, destination, system_id, content),
    ensures
        ctx.source@ == source,
        ctx.destination@ == destination,
        ctx.system_id@ == system_id,
        ctx.content@ == content,
        ctx.content_length == encode_utf8(content).len(),
        ctx.sender_id is None && ctx.client_ip is None && ctx.service_type is None,
        ctx.esm_class == 0 && ctx.protocol_id == 0 && ctx.data_coding == 0 && ctx.priority == 0,
        !ctx.tls_enabled,
        ctx.metadata@.len() == 0,
{
}

} // verus!
