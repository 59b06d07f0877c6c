//! What the answers of a firewall mean, told by the configuration and the
//! message alone.

use super::context::{terminal, EffectView, EvaluationContext, EvaluationResultView};
use super::engine::{
    acted, all_count_nothing, all_hit, all_hold, asking_all_changes_nothing, asking_changes_nothing,
    chain_of, chains_of, chains_run, clock_time, condition_of, conditions_of, first_match, holds,
    one_holds, rate_entry, rule_of, rules_of, ChainView, CompiledFirewall, Condition, Lists, Moment,
    RateLimitState, Rates, RuleView,
};
use super::types::{
    ActionConfig, ChainConfig, ChainType, ConditionConfig, ContentMatchType, ContentMatcherConfig,
    FirewallConfig, FirewallErrorView, IpMatchType, IpMatcherConfig, LogLevel, Policy, RateKey,
    RuleConfig, StringMatchType, StringMatcherConfig,
};
use crate::collections::texts;
use crate::net::{ip_text, net_contains, parsed_ip, parsed_net};
use crate::regexes::{regex_matches, regex_valid};
use crate::text::{all_digits, digits_value, has_substring, lowercase, split_text};
use crate::time::{elapsed_nanos, zoned_reading, Duration};
use vstd::prelude::*;

verus! {

/// A firewall is that of a configuration with one input chain, which accepts
/// what its only rule does not match.
pub open spec fn has_one_rule(
    f: CompiledFirewall,
    config: FirewallConfig,
    condition: ConditionConfig,
    action: ActionConfig,
) -> bool {
    &&& f.enabled()
    &&& f.chains() == chains_of(config.chains@)->Ok_0
    &&& config.chains@.len() == 1
    &&& config.chains@[0].chain_type == ChainType::Input
    &&& config.chains@[0].policy == Policy::Accept
    &&& config.chains@[0].rules@.len() == 1
    &&& config.chains@[0].rules@[0].enabled
    &&& config.chains@[0].rules@[0].conditions@.len() == 1
    &&& config.chains@[0].rules@[0].conditions@[0] == condition
    &&& config.chains@[0].rules@[0].action == action
}

proof fn one_rule_compiles(config: FirewallConfig)
    requires
        config.chains@.len() == 1,
        config.chains@[0].rules@.len() == 1,
        config.chains@[0].rules@[0].conditions@.len() == 1,
    ensures
        ({
            let chain = config.chains@[0];
            let rule = chain.rules@[0];
            match condition_of(rule.conditions@[0]) {
                Ok(c) => {
                    &&& chains_of(config.chains@) is Ok
                    &&& chains_of(config.chains@)->Ok_0.len() == 1
                    &&& chains_of(config.chains@)->Ok_0[0].chain_type == chain.chain_type
                    &&& chains_of(config.chains@)->Ok_0[0].policy == chain.policy
                    &&& chains_of(config.chains@)->Ok_0[0].rules.len() == 1
                    &&& chains_of(config.chains@)->Ok_0[0].rules[0].enabled == rule.enabled
                    &&& chains_of(config.chains@)->Ok_0[0].rules[0].action == rule.action
                    &&& chains_of(config.chains@)->Ok_0[0].rules[0].conditions == seq![c]
                },
                Err(_) => chains_of(config.chains@) is Err,
            }
        }),
{
    let chain = config.chains@[0];
    let rule = chain.rules@[0];
    assert(config.chains@.drop_last() =~= seq![]);
    assert(chain.rules@.drop_last() =~= seq![]);
    assert(rule.conditions@.drop_last() =~= seq![]);
    reveal_with_fuel(chains_of, 2);
    reveal_with_fuel(rules_of, 2);
    reveal_with_fuel(conditions_of, 2);
}

proof fn one_condition_decides(
    before: CompiledFirewall,
    after: CompiledFirewall,
    config: FirewallConfig,
    condition: ConditionConfig,
    ctx: EvaluationContext,
    at: Moment,
    answer: EvaluationResultView,
    effects: Seq<EffectView>,
)
    requires
        has_one_rule(before, config, condition, ActionConfig::Drop),
        before.evaluated(after, ctx, at, answer, effects),
        condition_of(condition) is Ok,
    ensures
        chains_of(config.chains@) is Ok,
        ({
            let asked = holds(
                condition_of(condition)->Ok_0,
                ctx,
                before.lists(),
                before.rates(),
                at,
            );
            &&& answer == if asked.0 {
                EvaluationResultView::Drop
            } else {
                EvaluationResultView::Accept
            }
            &&& after.rates() == asked.1
        }),
{
    one_rule_compiles(config);
    let c = condition_of(condition)->Ok_0;
    let rules = before.chains()[0].rules;
    assert(seq![c].drop_first() =~= seq![]);
    assert(rules.drop_first() =~= seq![]);
    assert(rules[0].conditions == seq![c]);
    reveal_with_fuel(all_hold, 2);
    reveal_with_fuel(first_match, 2);
    reveal_with_fuel(chains_run, 2);
}

proof fn list_entries(lists: Lists, name: Seq<char>, value: Seq<char>)
    ensures
        lists.dom().contains(name) ==> (texts(lists[name]@).contains(value) <==> exists|i: int|
            0 <= i < lists[name]@.len() && #[trigger] lists[name]@[i]@ == value),
{
    if lists.dom().contains(name) {
        let items = lists[name]@;
        if texts(items).contains(value) {
            let i = choose|i: int| 0 <= i < texts(items).len() && texts(items)[i] == value;
            assert(items[i]@ == value);
        }
        if exists|i: int| 0 <= i < items.len() && #[trigger] items[i]@ == value {
            let i = choose|i: int| 0 <= i < items.len() && #[trigger] items[i]@ == value;
            assert(texts(items)[i] == value);
        }
    }
}

/// A condition on the source asks nothing but the source address.
pub proof fn source_conditions_look_at_the_source(
    before: CompiledFirewall,
    after: CompiledFirewall,
    config: FirewallConfig,
    matcher: StringMatcherConfig,
    ctx: EvaluationContext,
    at: Moment,
    answer: EvaluationResultView,
    effects: Seq<EffectView>,
)
    requires
        has_one_rule(before, config, ConditionConfig::Source { matcher }, ActionConfig::Drop),
        before.evaluated(after, ctx, at, answer, effects),
        chains_of(config.chains@) is Ok,
    ensures
        answer is Drop || answer is Accept,
        after.rates() == before.rates(),
        matcher.match_type is Exact ==> matcher.value is Some && (answer is Drop <==> ((ctx.source@ == matcher.value->0@) != matcher.negate)),
        matcher.match_type is Prefix ==> matcher.value is Some && (answer is Drop <==> ((matcher.value->0@.is_prefix_of(ctx.source@)) != matcher.negate)),
        matcher.match_type is Suffix ==> matcher.value is Some && (answer is Drop <==> ((matcher.value->0@.is_suffix_of(ctx.source@)) != matcher.negate)),
        matcher.match_type is Contains ==> matcher.value is Some && (answer is Drop <==> ((has_substring(ctx.source@, matcher.value->0@)) != matcher.negate)),
        matcher.match_type is Regex ==> matcher.pattern is Some && regex_valid(matcher.pattern->0@) && (answer is Drop <==> ((regex_matches(matcher.pattern->0@, ctx.source@)) != matcher.negate)),
        matcher.match_type is List ==> matcher.list is Some && (answer is Drop <==> ((before.lists().dom().contains(matcher.list->0@) && exists|i: int| 0 <= i < before.lists()[matcher.list->0@]@.len() && #[trigger] before.lists()[matcher.list->0@]@[i]@ == ctx.source@) != matcher.negate)),
{
    one_rule_compiles(config);
    one_condition_decides(
        before,
        after,
        config,
        ConditionConfig::Source { matcher },
        ctx,
        at,
        answer,
        effects,
    );
    if matcher.list is Some {
        list_entries(before.lists(), matcher.list->0@, ctx.source@);
    }
}

/// A condition on the destination asks nothing but the destination address.
pub proof fn destination_conditions_look_at_the_destination(
    before: CompiledFirewall,
    after: CompiledFirewall,
    config: FirewallConfig,
    matcher: StringMatcherConfig,
    ctx: EvaluationContext,
    at: Moment,
    answer: EvaluationResultView,
    effects: Seq<EffectView>,
)
    requires
        has_one_rule(before, config, ConditionConfig::Destination { matcher }, ActionConfig::Drop),
        before.evaluated(after, ctx, at, answer, effects),
        chains_of(config.chains@) is Ok,
    ensures
        answer is Drop || answer is Accept,
        after.rates() == before.rates(),
        matcher.match_type is Exact ==> matcher.value is Some && (answer is Drop <==> ((ctx.destination@ == matcher.value->0@) != matcher.negate)),
        matcher.match_type is Prefix ==> matcher.value is Some && (answer is Drop <==> ((matcher.value->0@.is_prefix_of(ctx.destination@)) != matcher.negate)),
        matcher.match_type is Suffix ==> matcher.value is Some && (answer is Drop <==> ((matcher.value->0@.is_suffix_of(ctx.destination@)) != matcher.negate)),
        matcher.match_type is Contains ==> matcher.value is Some && (answer is Drop <==> ((has_substring(ctx.destination@, matcher.value->0@)) != matcher.negate)),
        matcher.match_type is Regex ==> matcher.pattern is Some && regex_valid(matcher.pattern->0@) && (answer is Drop <==> ((regex_matches(matcher.pattern->0@, ctx.destination@)) != matcher.negate)),
        matcher.match_type is List ==> matcher.list is Some && (answer is Drop <==> ((before.lists().dom().contains(matcher.list->0@) && exists|i: int| 0 <= i < before.lists()[matcher.list->0@]@.len() && #[trigger] before.lists()[matcher.list->0@]@[i]@ == ctx.destination@) != matcher.negate)),
{
    one_rule_compiles(config);
    one_condition_decides(
        before,
        after,
        config,
        ConditionConfig::Destination { matcher },
        ctx,
        at,
        answer,
        effects,
    );
    if matcher.list is Some {
        list_entries(before.lists(), matcher.list->0@, ctx.destination@);
    }
}

/// A condition on the sender ID asks nothing but the sender ID; a message
/// without one never meets it.
pub proof fn sender_conditions_look_at_the_sender(
    before: CompiledFirewall,
    after: CompiledFirewall,
    config: FirewallConfig,
    matcher: StringMatcherConfig,
    ctx: EvaluationContext,
    at: Moment,
    answer: EvaluationResultView,
    effects: Seq<EffectView>,
)
    requires
        has_one_rule(before, config, ConditionConfig::SenderId { matcher }, ActionConfig::Drop),
        before.evaluated(after, ctx, at, answer, effects),
        chains_of(config.chains@) is Ok,
    ensures
        answer is Drop || answer is Accept,
        after.rates() == before.rates(),
        matcher.match_type is Exact ==> matcher.value is Some && (answer is Drop <==> ctx.sender_id is Some && ((ctx.sender_id->0@ == matcher.value->0@) != matcher.negate)),
        matcher.match_type is Prefix ==> matcher.value is Some && (answer is Drop <==> ctx.sender_id is Some && ((matcher.value->0@.is_prefix_of(ctx.sender_id->0@)) != matcher.negate)),
        matcher.match_type is Suffix ==> matcher.value is Some && (answer is Drop <==> ctx.sender_id is Some && ((matcher.value->0@.is_suffix_of(ctx.sender_id->0@)) != matcher.negate)),
        matcher.match_type is Contains ==> matcher.value is Some && (answer is Drop <==> ctx.sender_id is Some && ((has_substring(ctx.sender_id->0@, matcher.value->0@)) != matcher.negate)),
        matcher.match_type is Regex ==> matcher.pattern is Some && regex_valid(matcher.pattern->0@) && (answer is Drop <==> ctx.sender_id is Some && ((regex_matches(matcher.pattern->0@, ctx.sender_id->0@)) != matcher.negate)),
        matcher.match_type is List ==> matcher.list is Some && (answer is Drop <==> ctx.sender_id is Some && ((before.lists().dom().contains(matcher.list->0@) && exists|i: int| 0 <= i < before.lists()[matcher.list->0@]@.len() && #[trigger] before.lists()[matcher.list->0@]@[i]@ == ctx.sender_id->0@) != matcher.negate)),
{
    one_rule_compiles(config);
    one_condition_decides(
        before,
        after,
        config,
        ConditionConfig::SenderId { matcher },
        ctx,
        at,
        answer,
        effects,
    );
    if matcher.list is Some {
        list_entries(before.lists(), matcher.list->0@, ctx.sender_id->0@);
    }
}

/// A condition on the system ID asks nothing but the system ID.
pub proof fn system_conditions_look_at_the_system(
    before: CompiledFirewall,
    after: CompiledFirewall,
    config: FirewallConfig,
    matcher: StringMatcherConfig,
    ctx: EvaluationContext,
    at: Moment,
    answer: EvaluationResultView,
    effects: Seq<EffectView>,
)
    requires
        has_one_rule(before, config, ConditionConfig::SystemId { matcher }, ActionConfig::Drop),
        before.evaluated(after, ctx, at, answer, effects),
        chains_of(config.chains@) is Ok,
    ensures
        answer is Drop || answer is Accept,
        after.rates() == before.rates(),
        matcher.match_type is Exact ==> matcher.value is Some && (answer is Drop <==> ((ctx.system_id@ == matcher.value->0@) != matcher.negate)),
        matcher.match_type is Prefix ==> matcher.value is Some && (answer is Drop <==> ((matcher.value->0@.is_prefix_of(ctx.system_id@)) != matcher.negate)),
        matcher.match_type is Suffix ==> matcher.value is Some && (answer is Drop <==> ((matcher.value->0@.is_suffix_of(ctx.system_id@)) != matcher.negate)),
        matcher.match_type is Contains ==> matcher.value is Some && (answer is Drop <==> ((has_substring(ctx.system_id@, matcher.value->0@)) != matcher.negate)),
        matcher.match_type is Regex ==> matcher.pattern is Some && regex_valid(matcher.pattern->0@) && (answer is Drop <==> ((regex_matches(matcher.pattern->0@, ctx.system_id@)) != matcher.negate)),
        matcher.match_type is List ==> matcher.list is Some && (answer is Drop <==> ((before.lists().dom().contains(matcher.list->0@) && exists|i: int| 0 <= i < before.lists()[matcher.list->0@]@.len() && #[trigger] before.lists()[matcher.list->0@]@[i]@ == ctx.system_id@) != matcher.negate)),
{
    one_rule_compiles(config);
    one_condition_decides(
        before,
        after,
        config,
        ConditionConfig::SystemId { matcher },
        ctx,
        at,
        answer,
        effects,
    );
    if matcher.list is Some {
        list_entries(before.lists(), matcher.list->0@, ctx.system_id@);
    }
}

/// A condition on the content asks nothing but the content. Where case is left
/// out, both sides are compared in lower case.
pub proof fn content_conditions_look_at_the_content(
    before: CompiledFirewall,
    after: CompiledFirewall,
    config: FirewallConfig,
    matcher: ContentMatcherConfig,
    ctx: EvaluationContext,
    at: Moment,
    answer: EvaluationResultView,
    effects: Seq<EffectView>,
)
    requires
        has_one_rule(before, config, ConditionConfig::Content { matcher }, ActionConfig::Drop),
        before.evaluated(after, ctx, at, answer, effects),
        chains_of(config.chains@) is Ok,
    ensures
        answer is Drop || answer is Accept,
        after.rates() == before.rates(),
        matcher.match_type is Exact ==> matcher.value is Some && (answer is Drop <==> ((if matcher.case_insensitive {
            lowercase(ctx.content@) == lowercase(matcher.value->0@)
        } else {
            ctx.content@ == matcher.value->0@
        }) != matcher.negate)),
        matcher.match_type is Contains ==> matcher.value is Some && (answer is Drop <==> ((if matcher.case_insensitive {
            has_substring(lowercase(ctx.content@), lowercase(matcher.value->0@))
        } else {
            has_substring(ctx.content@, matcher.value->0@)
        }) != matcher.negate)),
        matcher.match_type is Regex ==> matcher.pattern is Some && (answer is Drop <==> ((if matcher.case_insensitive {
            regex_matches("(?i)"@ + matcher.pattern->0@, ctx.content@)
        } else {
            regex_matches(matcher.pattern->0@, ctx.content@)
        }) != matcher.negate)),
        matcher.match_type is Keywords ==> matcher.list is Some && (answer is Drop <==> ((before.lists().dom().contains(matcher.list->0@) && exists|i: int|
            0 <= i < before.lists()[matcher.list->0@]@.len() && if matcher.case_insensitive {
                has_substring(
                    lowercase(ctx.content@),
                    lowercase((#[trigger] before.lists()[matcher.list->0@]@[i])@),
                )
            } else {
                has_substring(ctx.content@, before.lists()[matcher.list->0@]@[i]@)
            }) != matcher.negate)),
{
    one_rule_compiles(config);
    one_condition_decides(
        before,
        after,
        config,
        ConditionConfig::Content { matcher },
        ctx,
        at,
        answer,
        effects,
    );
}

/// A condition on the length holds from the least length to the greatest, both
/// included; a bound that is not there lets everything through.
pub proof fn length_conditions_look_at_the_length(
    before: CompiledFirewall,
    after: CompiledFirewall,
    config: FirewallConfig,
    min: Option<usize>,
    max: Option<usize>,
    negate: bool,
    ctx: EvaluationContext,
    at: Moment,
    answer: EvaluationResultView,
    effects: Seq<EffectView>,
)
    requires
        has_one_rule(before, config, ConditionConfig::ContentLength { min, max, negate }, ActionConfig::Drop),
        before.evaluated(after, ctx, at, answer, effects),
        chains_of(config.chains@) is Ok,
    ensures
        answer is Drop || answer is Accept,
        after.rates() == before.rates(),
        !negate && min is Some && ctx.content_length < min->0 ==> answer is Accept,
        !negate && max is Some && ctx.content_length > max->0 ==> answer is Accept,
        !negate && (min is None || ctx.content_length >= min->0) && (max is None
            || ctx.content_length <= max->0) ==> answer is Drop,
        negate && (min is None || ctx.content_length >= min->0) && (max is None
            || ctx.content_length <= max->0) ==> answer is Accept,
        negate && (min is Some && ctx.content_length < min->0 || max is Some
            && ctx.content_length > max->0) ==> answer is Drop,
{
    one_rule_compiles(config);
    one_condition_decides(
        before,
        after,
        config,
        ConditionConfig::ContentLength { min, max, negate },
        ctx,
        at,
        answer,
        effects,
    );
}

/// A condition on the ESM class compares the bits under its mask, or all bits
/// where it has none.
pub proof fn class_conditions_look_at_the_class(
    before: CompiledFirewall,
    after: CompiledFirewall,
    config: FirewallConfig,
    value: u8,
    mask: Option<u8>,
    ctx: EvaluationContext,
    at: Moment,
    answer: EvaluationResultView,
    effects: Seq<EffectView>,
)
    requires
        has_one_rule(before, config, ConditionConfig::EsmClass { value, mask }, ActionConfig::Drop),
        before.evaluated(after, ctx, at, answer, effects),
        chains_of(config.chains@) is Ok,
    ensures
        answer is Drop || answer is Accept,
        after.rates() == before.rates(),
        mask is None ==> (answer is Drop <==> ctx.esm_class == value),
        mask is Some ==> (answer is Drop <==> ctx.esm_class & mask->0 == value & mask->0),
{
    one_rule_compiles(config);
    one_condition_decides(
        before,
        after,
        config,
        ConditionConfig::EsmClass { value, mask },
        ctx,
        at,
        answer,
        effects,
    );
}

/// A condition on the protocol ID compares the protocol ID.
pub proof fn protocol_conditions_look_at_the_protocol(
    before: CompiledFirewall,
    after: CompiledFirewall,
    config: FirewallConfig,
    value: u8,
    ctx: EvaluationContext,
    at: Moment,
    answer: EvaluationResultView,
    effects: Seq<EffectView>,
)
    requires
        has_one_rule(before, config, ConditionConfig::ProtocolId { value }, ActionConfig::Drop),
        before.evaluated(after, ctx, at, answer, effects),
        chains_of(config.chains@) is Ok,
    ensures
        answer is Drop || answer is Accept,
        after.rates() == before.rates(),
        answer is Drop <==> ctx.protocol_id == value,
{
    one_rule_compiles(config);
    one_condition_decides(
        before,
        after,
        config,
        ConditionConfig::ProtocolId { value },
        ctx,
        at,
        answer,
        effects,
    );
}

/// A condition on the data coding compares the data coding.
pub proof fn coding_conditions_look_at_the_coding(
    before: CompiledFirewall,
    after: CompiledFirewall,
    config: FirewallConfig,
    value: u8,
    ctx: EvaluationContext,
    at: Moment,
    answer: EvaluationResultView,
    effects: Seq<EffectView>,
)
    requires
        has_one_rule(before, config, ConditionConfig::DataCoding { value }, ActionConfig::Drop),
        before.evaluated(after, ctx, at, answer, effects),
        chains_of(config.chains@) is Ok,
    ensures
        answer is Drop || answer is Accept,
        after.rates() == before.rates(),
        answer is Drop <==> ctx.data_coding == value,
{
    one_rule_compiles(config);
    one_condition_decides(
        before,
        after,
        config,
        ConditionConfig::DataCoding { value },
        ctx,
        at,
        answer,
        effects,
    );
}

/// A condition on TLS compares whether the connection uses it.
pub proof fn tls_conditions_look_at_the_connection(
    before: CompiledFirewall,
    after: CompiledFirewall,
    config: FirewallConfig,
    value: bool,
    ctx: EvaluationContext,
    at: Moment,
    answer: EvaluationResultView,
    effects: Seq<EffectView>,
)
    requires
        has_one_rule(before, config, ConditionConfig::TlsEnabled { value }, ActionConfig::Drop),
        before.evaluated(after, ctx, at, answer, effects),
        chains_of(config.chains@) is Ok,
    ensures
        answer is Drop || answer is Accept,
        after.rates() == before.rates(),
        answer is Drop <==> ctx.tls_enabled == value,
{
    one_rule_compiles(config);
    one_condition_decides(
        before,
        after,
        config,
        ConditionConfig::TlsEnabled { value },
        ctx,
        at,
        answer,
        effects,
    );
}

/// A condition on the client asks nothing but its address; a message without
/// one never meets it.
pub proof fn client_conditions_look_at_the_client(
    before: CompiledFirewall,
    after: CompiledFirewall,
    config: FirewallConfig,
    matcher: IpMatcherConfig,
    ctx: EvaluationContext,
    at: Moment,
    answer: EvaluationResultView,
    effects: Seq<EffectView>,
)
    requires
        has_one_rule(before, config, ConditionConfig::ClientIp { matcher }, ActionConfig::Drop),
        before.evaluated(after, ctx, at, answer, effects),
        chains_of(config.chains@) is Ok,
    ensures
        answer is Drop || answer is Accept,
        after.rates() == before.rates(),
        ctx.client_ip is None ==> answer is Accept,
        ctx.client_ip is Some && matcher.match_type is Exact ==> matcher.value is Some && parsed_ip(
            matcher.value->0@,
        ) is Some && (answer is Drop <==> ((parsed_ip(matcher.value->0@)->0 == ctx.client_ip->0)
            != matcher.negate)),
        ctx.client_ip is Some && matcher.match_type is Cidr ==> matcher.value is Some && parsed_net(
            matcher.value->0@,
        ) is Some && (answer is Drop <==> (net_contains(
            parsed_net(matcher.value->0@)->0,
            ctx.client_ip->0,
        ) != matcher.negate)),
        ctx.client_ip is Some && matcher.match_type is List ==> matcher.list is Some && (answer is Drop <==> ((before.lists().dom().contains(matcher.list->0@) && exists|i: int|
            0 <= i < before.lists()[matcher.list->0@]@.len() && #[trigger] before.lists()[matcher.list->0@]@[i]@
                == ip_text(ctx.client_ip->0)) != matcher.negate)),
{
    one_rule_compiles(config);
    one_condition_decides(
        before,
        after,
        config,
        ConditionConfig::ClientIp { matcher },
        ctx,
        at,
        answer,
        effects,
    );
    if matcher.list is Some && ctx.client_ip is Some {
        list_entries(before.lists(), matcher.list->0@, ip_text(ctx.client_ip->0));
    }
}

/// A condition on the day holds on its days, counted from Sunday. Day zero of
/// the count of seconds is a Thursday.
pub proof fn day_conditions_look_at_the_day(
    before: CompiledFirewall,
    after: CompiledFirewall,
    config: FirewallConfig,
    days: Vec<u8>,
    day: int,
    weekday: u8,
    ctx: EvaluationContext,
    at: Moment,
    answer: EvaluationResultView,
    effects: Seq<EffectView>,
)
    requires
        has_one_rule(before, config, ConditionConfig::DayOfWeek { days }, ActionConfig::Drop),
        before.evaluated(after, ctx, at, answer, effects),
        chains_of(config.chains@) is Ok,
        day * 86_400 <= at.utc.secs < (day + 1) * 86_400,
        weekday < 7,
        exists|weeks: int| #[trigger] (weeks * 7) + weekday == day + 4,
    ensures
        answer is Drop || answer is Accept,
        after.rates() == before.rates(),
        answer is Drop <==> days@.contains(weekday),
{
    one_rule_compiles(config);
    one_condition_decides(
        before,
        after,
        config,
        ConditionConfig::DayOfWeek { days },
        ctx,
        at,
        answer,
        effects,
    );
    assert(at.utc.secs as int / 86_400 == day);
}

/// A condition on a rate holds for a message that comes when as many messages
/// as its threshold were counted in the window, or more. It counts the message,
/// and nothing else.
pub proof fn rate_conditions_count_the_messages(
    before: CompiledFirewall,
    after: CompiledFirewall,
    config: FirewallConfig,
    key: RateKey,
    window: Duration,
    threshold: u64,
    ctx: EvaluationContext,
    at: Moment,
    answer: EvaluationResultView,
    effects: Seq<EffectView>,
)
    requires
        has_one_rule(before, config, ConditionConfig::Rate { key, window, threshold }, ActionConfig::Drop),
        before.evaluated(after, ctx, at, answer, effects),
        chains_of(config.chains@) is Ok,
    ensures
        answer is Drop || answer is Accept,
        ({
            let entry = rate_entry(ctx, key);
            let known = before.rates().dom().contains(entry);
            let state = before.rates()[entry];
            let running = known && elapsed_nanos(state.window_start, at.clock) < window@;
            &&& running && state.count < u64::MAX ==> {
                &&& answer is Drop <==> state.count >= threshold
                &&& after.rates()[entry].count == state.count + 1
                &&& after.rates()[entry].window_start == state.window_start
            }
            &&& !running ==> {
                &&& answer is Drop <==> threshold == 0
                &&& after.rates()[entry].count == 1
                &&& after.rates()[entry].window_start == at.clock
            }
            &&& after.rates().dom() == before.rates().dom().insert(entry)
            &&& forall|other: Seq<char>|
                other != entry && before.rates().dom().contains(other) ==> #[trigger] after.rates()[other]
                    == before.rates()[other]
        }),
{
    one_rule_compiles(config);
    one_condition_decides(
        before,
        after,
        config,
        ConditionConfig::Rate { key, window, threshold },
        ctx,
        at,
        answer,
        effects,
    );
}

/// What a rate limit counts messages under begins with the name of its key and
/// ends with what the message has for the key. A message without a sender ID
/// counts under its source, and one without a client address under nothing.
pub proof fn rates_count_by_their_key(ctx: EvaluationContext)
    ensures
        rate_entry(ctx, RateKey::SystemId) == "SystemId:"@ + ctx.system_id@,
        rate_entry(ctx, RateKey::Source) == "Source:"@ + ctx.source@,
        rate_entry(ctx, RateKey::Destination) == "Destination:"@ + ctx.destination@,
        ctx.client_ip is Some ==> rate_entry(ctx, RateKey::ClientIp) == "ClientIp:"@ + ip_text(
            ctx.client_ip->0,
        ),
        ctx.client_ip is None ==> rate_entry(ctx, RateKey::ClientIp) == "ClientIp:"@,
        ctx.sender_id is Some ==> rate_entry(ctx, RateKey::SenderId) == "SenderId:"@
            + ctx.sender_id->0@,
        ctx.sender_id is None ==> rate_entry(ctx, RateKey::SenderId) == "SenderId:"@ + ctx.source@,
{
    reveal_strlit("SystemId");
    reveal_strlit("SystemId:");
    reveal_strlit("Source");
    reveal_strlit("Source:");
    reveal_strlit("Destination");
    reveal_strlit("Destination:");
    reveal_strlit("ClientIp");
    reveal_strlit("ClientIp:");
    reveal_strlit("SenderId");
    reveal_strlit("SenderId:");
    reveal_strlit(":");
    assert("SystemId"@ + ":"@ =~= "SystemId:"@);
    assert("Source"@ + ":"@ =~= "Source:"@);
    assert("Destination"@ + ":"@ =~= "Destination:"@);
    assert("ClientIp"@ + ":"@ =~= "ClientIp:"@);
    assert("SenderId"@ + ":"@ =~= "SenderId:"@);
    assert("ClientIp:"@ + Seq::<char>::empty() =~= "ClientIp:"@);
}

/// A condition on the time holds from the minute of its start to the minute of
/// its end, both included. A span whose end comes before its start runs over
/// midnight. Without a zone the times are in UTC, and so they are with a zone
/// that is not known.
pub proof fn time_conditions_look_at_the_time(
    before: CompiledFirewall,
    after: CompiledFirewall,
    config: FirewallConfig,
    start: String,
    end: String,
    timezone: Option<String>,
    from: (nat, nat),
    to: (nat, nat),
    now: int,
    ctx: EvaluationContext,
    at: Moment,
    answer: EvaluationResultView,
    effects: Seq<EffectView>,
)
    requires
        has_one_rule(before, config, ConditionConfig::Time { start, end, timezone }, ActionConfig::Drop),
        before.evaluated(after, ctx, at, answer, effects),
        chains_of(config.chains@) is Ok,
        clock_time(start@) == Ok::<(nat, nat), FirewallErrorView>(from),
        clock_time(end@) == Ok::<(nat, nat), FirewallErrorView>(to),
        timezone is None || zoned_reading(timezone->0@, at.utc.secs, at.utc.nanos) is None ==> now
            == at.utc.secs as int % 86_400 / 60,
        timezone is Some && zoned_reading(timezone->0@, at.utc.secs, at.utc.nanos) is Some ==> now
            == (zoned_reading(timezone->0@, at.utc.secs, at.utc.nanos)->0).1 as int / 60,
    ensures
        answer is Drop || answer is Accept,
        after.rates() == before.rates(),
        from.0 * 60 + from.1 <= to.0 * 60 + to.1 ==> (answer is Drop <==> from.0 * 60 + from.1
            <= now <= to.0 * 60 + to.1),
        from.0 * 60 + from.1 > to.0 * 60 + to.1 ==> (answer is Accept <==> to.0 * 60 + to.1 < now
            < from.0 * 60 + from.1),
{
    one_rule_compiles(config);
    one_condition_decides(
        before,
        after,
        config,
        ConditionConfig::Time { start, end, timezone },
        ctx,
        at,
        answer,
        effects,
    );
    let secs = at.utc.secs as int;
    assert((secs % 86_400) / 3_600 * 60 + (secs % 3_600) / 60 == secs % 86_400 / 60) by {
        let q = secs % 86_400;
        assert(q % 3_600 == secs % 3_600) by {
            vstd::arithmetic::div_mod::lemma_mod_mod(secs, 3_600, 24);
        }
        assert(q / 3_600 * 60 + (q % 3_600) / 60 == q / 60);
    }
}

/// The opposite of a condition is met exactly when the condition is not.
pub proof fn opposites_turn_the_answer_round(
    c: Condition,
    ctx: EvaluationContext,
    lists: Lists,
    rates: Rates,
    at: Moment,
)
    ensures
        holds(Condition::Not(Box::new(c)), ctx, lists, rates, at).0 <==> !holds(
            c,
            ctx,
            lists,
            rates,
            at,
        ).0,
{
}

/// Of conditions that count nothing, all are met exactly when each one is met
/// alone, and one is met exactly when there is one that is met alone.
pub proof fn lists_of_conditions_are_met(
    cs: Seq<Condition>,
    ctx: EvaluationContext,
    lists: Lists,
    rates: Rates,
    at: Moment,
)
    requires
        all_count_nothing(cs),
    ensures
        holds(Condition::And(cs), ctx, lists, rates, at).0 <==> forall|i: int|
            0 <= i < cs.len() ==> (#[trigger] holds(cs[i], ctx, lists, rates, at)).0,
        holds(Condition::Or(cs), ctx, lists, rates, at).0 <==> exists|i: int|
            0 <= i < cs.len() && (#[trigger] holds(cs[i], ctx, lists, rates, at)).0,
        all_hold(cs, ctx, lists, rates, at).0 <==> forall|i: int|
            0 <= i < cs.len() ==> (#[trigger] holds(cs[i], ctx, lists, rates, at)).0,
    decreases cs.len(),
{
    assert(holds(Condition::And(cs), ctx, lists, rates, at) == all_hold(cs, ctx, lists, rates, at));
    assert(holds(Condition::Or(cs), ctx, lists, rates, at) == one_holds(cs, ctx, lists, rates, at));
    if cs.len() > 0 {
        let rest = cs.drop_first();
        asking_changes_nothing(cs[0], ctx, lists, rates, at);
        lists_of_conditions_are_met(rest, ctx, lists, rates, at);
        assert forall|i: int| 0 <= i < rest.len() implies rest[i] == #[trigger] cs[i + 1] by {}
        if all_hold(cs, ctx, lists, rates, at).0 {
            assert forall|i: int| 0 <= i < cs.len() implies (#[trigger] holds(
                cs[i],
                ctx,
                lists,
                rates,
                at,
            )).0 by {
                if i > 0 {
                    assert(rest[i - 1] == cs[i]);
                }
            }
        } else if holds(cs[0], ctx, lists, rates, at).0 {
            let i = choose|i: int|
                0 <= i < rest.len() && !(#[trigger] holds(rest[i], ctx, lists, rates, at)).0;
            assert(!holds(cs[i + 1], ctx, lists, rates, at).0);
        } else {
            assert(!holds(cs[0], ctx, lists, rates, at).0);
        }
        if one_holds(cs, ctx, lists, rates, at).0 {
            if !holds(cs[0], ctx, lists, rates, at).0 {
                let i = choose|i: int|
                    0 <= i < rest.len() && (#[trigger] holds(rest[i], ctx, lists, rates, at)).0;
                assert(holds(cs[i + 1], ctx, lists, rates, at).0);
            } else {
                assert(holds(cs[0], ctx, lists, rates, at).0);
            }
        } else {
            assert forall|i: int| 0 <= i < cs.len() implies !(#[trigger] holds(
                cs[i],
                ctx,
                lists,
                rates,
                at,
            )).0 by {
                if i > 0 {
                    assert(rest[i - 1] == cs[i]);
                }
            }
        }
    }
}

/// The opposite, all of several and one of several keep their meaning when they
/// are compiled.
pub proof fn compositions_are_compiled(config: ConditionConfig)
    requires
        condition_of(config) is Ok,
    ensures
        config matches ConditionConfig::Not { condition } ==> condition_of(*condition) is Ok
            && condition_of(config)->Ok_0 == Condition::Not(
            Box::new(condition_of(*condition)->Ok_0),
        ),
        config matches ConditionConfig::And { conditions } ==> condition_of(config)->Ok_0
            == Condition::And(conditions_of(conditions@)->Ok_0),
        config matches ConditionConfig::Or { conditions } ==> condition_of(config)->Ok_0
            == Condition::Or(conditions_of(conditions@)->Ok_0),
{
}

/// Conditions are compiled one by one, in order.
pub proof fn conditions_are_compiled(configs: Seq<ConditionConfig>)
    ensures
        conditions_of(configs) is Ok <==> forall|i: int|
            0 <= i < configs.len() ==> (#[trigger] condition_of(configs[i])) is Ok,
        conditions_of(configs) is Ok ==> conditions_of(configs)->Ok_0.len() == configs.len()
            && forall|i: int|
            0 <= i < configs.len() ==> conditions_of(configs)->Ok_0[i] == (#[trigger] condition_of(
                configs[i],
            ))->Ok_0,
    decreases configs.len(),
{
    if configs.len() > 0 {
        let front = configs.drop_last();
        conditions_are_compiled(front);
        assert forall|i: int| 0 <= i < front.len() implies front[i] == configs[i] by {}
        if conditions_of(configs) is Ok {
            assert forall|i: int| 0 <= i < configs.len() implies (#[trigger] condition_of(
                configs[i],
            )) is Ok && conditions_of(configs)->Ok_0[i] == condition_of(configs[i])->Ok_0 by {
                if i < front.len() {
                    assert(condition_of(front[i]) is Ok);
                }
            }
        } else if conditions_of(front) is Ok {
            assert(condition_of(configs[configs.len() - 1]) is Err);
        } else {
            let i = choose|i: int|
                0 <= i < front.len() && !((#[trigger] condition_of(front[i])) is Ok);
            assert(!(condition_of(configs[i]) is Ok));
        }
    }
}

/// A text matcher can be compiled exactly when it has what its kind needs.
pub proof fn matchers_need_their_value(matcher: StringMatcherConfig)
    ensures
        condition_of(ConditionConfig::Source { matcher }) is Ok <==> match matcher.match_type {
            StringMatchType::Regex => matcher.pattern is Some && regex_valid(matcher.pattern->0@),
            StringMatchType::List => matcher.list is Some,
            _ => matcher.value is Some,
        },
        condition_of(ConditionConfig::Destination { matcher }) is Ok <==> condition_of(
            ConditionConfig::Source { matcher },
        ) is Ok,
        condition_of(ConditionConfig::SenderId { matcher }) is Ok <==> condition_of(
            ConditionConfig::Source { matcher },
        ) is Ok,
        condition_of(ConditionConfig::SystemId { matcher }) is Ok <==> condition_of(
            ConditionConfig::Source { matcher },
        ) is Ok,
{
}

/// A content matcher can be compiled exactly when it has what its kind needs,
/// and an address matcher when it has an address, a network or a list.
pub proof fn other_matchers_need_their_value(
    content: ContentMatcherConfig,
    client: IpMatcherConfig,
)
    ensures
        condition_of(ConditionConfig::Content { matcher: content }) is Ok <==> match content.match_type {
            ContentMatchType::Regex => content.pattern is Some && (if content.case_insensitive {
                regex_valid("(?i)"@ + content.pattern->0@)
            } else {
                regex_valid(content.pattern->0@)
            }),
            ContentMatchType::Keywords => content.list is Some,
            _ => content.value is Some,
        },
        condition_of(ConditionConfig::ClientIp { matcher: client }) is Ok <==> match client.match_type {
            IpMatchType::Exact => client.value is Some && parsed_ip(client.value->0@) is Some,
            IpMatchType::Cidr => client.value is Some && parsed_net(client.value->0@) is Some,
            IpMatchType::List => client.list is Some,
        },
        forall|name: String, params: String|
            (#[trigger] condition_of(ConditionConfig::Plugin { name, params })) is Err,
{
}

/// A firewall has one input chain, whose only rule matches every message.
pub open spec fn always_acts(f: CompiledFirewall, action: ActionConfig) -> bool {
    &&& f.enabled()
    &&& f.chains().len() == 1
    &&& f.chains()[0].chain_type == ChainType::Input
    &&& f.chains()[0].rules.len() == 1
    &&& f.chains()[0].rules[0].enabled
    &&& f.chains()[0].rules[0].conditions.len() == 0
    &&& f.chains()[0].rules[0].action == action
}

/// What a firewall answers where its rules leave a message open.
proof fn default_answers(
    before: CompiledFirewall,
    after: CompiledFirewall,
    ctx: EvaluationContext,
    at: Moment,
    answer: EvaluationResultView,
    effects: Seq<EffectView>,
)
    requires
        before.evaluated(after, ctx, at, answer, effects),
        before.enabled(),
        !terminal(before.outcome(ctx, at).answer),
    ensures
        before.default_policy() is Accept ==> answer is Accept,
        before.default_policy() is Drop ==> answer is Drop,
        before.default_policy() is Reject ==> answer == (EvaluationResultView::Reject {
            status: 8,
            reason: None,
        }),
{
}

proof fn always_acting(
    f: CompiledFirewall,
    action: ActionConfig,
    ctx: EvaluationContext,
    at: Moment,
)
    requires
        always_acts(f, action),
    ensures
        ({
            let run = f.outcome(ctx, at);
            let done = acted(f.chains(), action, ctx, f.lists(), f.rates(), at, 1);
            &&& run.answer == done.answer || !terminal(run.answer) && !terminal(done.answer)
            &&& run.rates == done.rates
            &&& run.effects == done.effects
            &&& run.hits == seq![(0nat, 0nat)] + done.hits
        }),
{
    let rules = f.chains()[0].rules;
    assert(rules[0].conditions =~= seq![]);
    reveal_with_fuel(first_match, 2);
    reveal_with_fuel(all_hold, 2);
    reveal_with_fuel(chains_run, 2);
    let done = acted(f.chains(), action, ctx, f.lists(), f.rates(), at, 1);
    assert(Seq::<EffectView>::empty() + done.effects =~= done.effects);
    let run = f.outcome(ctx, at);
    assert(run.effects =~= done.effects);
    assert(run.hits =~= seq![(0nat, 0nat)] + done.hits);
}

/// The action of a rule that matches decides: each action that ends the
/// evaluation is answered as it stands, and after every other one the default
/// policy answers. The rule is counted once.
pub proof fn actions_are_taken(
    before: CompiledFirewall,
    after: CompiledFirewall,
    action: ActionConfig,
    ctx: EvaluationContext,
    at: Moment,
    answer: EvaluationResultView,
    effects: Seq<EffectView>,
)
    requires
        always_acts(before, action),
        before.evaluated(after, ctx, at, answer, effects),
        before.counters().len() == 1,
        before.counters()[0].len() == 1,
        before.counters()[0][0] < u64::MAX,
    ensures
        !(action is Jump) && !(action is Log && action->then_action is Some) ==> {
            &&& after.counters().len() == 1
            &&& after.counters()[0].len() == 1
            &&& after.counters()[0][0] == before.counters()[0][0] + 1
        },
        action is Accept ==> answer is Accept && effects.len() == 0,
        action is Drop ==> answer is Drop && effects.len() == 0,
        action is Quarantine ==> answer is Quarantine && effects.len() == 0,
        action matches ActionConfig::Reject { status, reason } ==> {
            &&& answer is Reject
            &&& answer->status == status
            &&& answer->reason is Some <==> reason is Some
            &&& reason is Some ==> answer->reason->0 == reason->0@
            &&& effects.len() == 0
        },
        action matches ActionConfig::Log { level, message, then_action } ==> {
            &&& effects.len() > 0
            &&& effects[0] is Log
            &&& effects[0]->level == level
            &&& message is Some ==> effects[0]->text == message->0@
            &&& message is None ==> effects[0]->text == "Firewall: "@ + ctx.source@ + " -> "@
                + ctx.destination@
            &&& then_action is None ==> effects.len() == 1
        },
        action matches ActionConfig::Delay { duration } ==> effects == seq![
            EffectView::Delay { duration: duration@ },
        ],
        action matches ActionConfig::Mark { key, value } ==> effects == seq![
            EffectView::Mark { key: key@, value: value@ },
        ],
        (action is Return || action is Plugin) ==> effects.len() == 0,
        (action is Delay || action is Mark || action is Return || action is Plugin || action is Modify
            || (action is Log && action->then_action is None)) ==> {
            &&& before.default_policy() is Accept ==> answer is Accept
            &&& before.default_policy() is Drop ==> answer is Drop
            &&& before.default_policy() is Reject ==> answer == (EvaluationResultView::Reject {
                status: 8,
                reason: None,
            })
        },
{
    always_acting(before, action, ctx, at);
    let counters = before.counters();
    assert(seq![(0nat, 0nat)].drop_last() =~= seq![]);
    reveal_with_fuel(all_hit, 2);
}

/// A change of a message names the new addresses, and a new content where
/// something of it changes: what it is replaced by, or else the content, with
/// what goes before it and behind it.
pub proof fn changes_are_asked_for(
    before: CompiledFirewall,
    after: CompiledFirewall,
    set_source: Option<String>,
    set_destination: Option<String>,
    set_content: Option<String>,
    prepend_content: Option<String>,
    append_content: Option<String>,
    ctx: EvaluationContext,
    at: Moment,
    answer: EvaluationResultView,
    effects: Seq<EffectView>,
)
    requires
        always_acts(
            before,
            ActionConfig::Modify {
                set_source,
                set_destination,
                set_content,
                prepend_content,
                append_content,
            },
        ),
        before.evaluated(after, ctx, at, answer, effects),
    ensures
        effects.len() == 1,
        effects[0] is Modify,
        effects[0]->Modify_source is Some <==> set_source is Some,
        set_source is Some ==> effects[0]->Modify_source->0 == set_source->0@,
        effects[0]->Modify_destination is Some <==> set_destination is Some,
        set_destination is Some ==> effects[0]->Modify_destination->0 == set_destination->0@,
        effects[0]->Modify_content is Some <==> set_content is Some || prepend_content is Some
            || append_content is Some,
        set_content is Some && prepend_content is None && append_content is None
            ==> effects[0]->Modify_content->0 == set_content->0@,
        set_content is None && prepend_content is Some && append_content is None
            ==> effects[0]->Modify_content->0 == prepend_content->0@ + ctx.content@,
        set_content is None && prepend_content is None && append_content is Some
            ==> effects[0]->Modify_content->0 == ctx.content@ + append_content->0@,
        set_content is None && prepend_content is Some && append_content is Some
            ==> effects[0]->Modify_content->0 == prepend_content->0@ + ctx.content@
            + append_content->0@,
        set_content is Some && prepend_content is Some && append_content is Some
            ==> effects[0]->Modify_content->0 == prepend_content->0@ + set_content->0@
            + append_content->0@,
{
    let action = ActionConfig::Modify {
        set_source,
        set_destination,
        set_content,
        prepend_content,
        append_content,
    };
    always_acting(before, action, ctx, at);
    let none = Seq::<char>::empty();
    assert(none + ctx.content@ =~= ctx.content@);
    if set_content is Some {
        assert(none + set_content->0@ + none =~= set_content->0@);
    }
    if prepend_content is Some {
        let front = prepend_content->0@ + ctx.content@;
        assert(front + none =~= front);
    }
}

/// The rate limit of an action rejects with its status the messages that come
/// when as many as its limit were counted in the window, or more; the others
/// are left to the default policy.
pub proof fn limits_reject_what_is_too_much(
    before: CompiledFirewall,
    after: CompiledFirewall,
    key: RateKey,
    window: Duration,
    limit: u64,
    status: u32,
    ctx: EvaluationContext,
    at: Moment,
    answer: EvaluationResultView,
    effects: Seq<EffectView>,
)
    requires
        always_acts(before, ActionConfig::RateLimit { key, window, limit, status }),
        before.evaluated(after, ctx, at, answer, effects),
        before.default_policy() is Accept,
    ensures
        effects.len() == 0,
        ({
            let entry = "limit:"@ + rate_entry(ctx, key);
            let known = before.rates().dom().contains(entry);
            let state = before.rates()[entry];
            let running = known && elapsed_nanos(state.window_start, at.clock) < window@;
            &&& running && limit <= state.count < u64::MAX ==> answer == (
            EvaluationResultView::Reject { status, reason: None })
            &&& running && state.count < limit ==> answer is Accept
            &&& !running && limit > 0 ==> answer is Accept
            &&& !running && limit == 0 ==> answer == (EvaluationResultView::Reject {
                status,
                reason: None,
            })
            &&& after.rates().dom() == before.rates().dom().insert(entry)
            &&& running && state.count < u64::MAX ==> after.rates()[entry].count == state.count + 1
            &&& running ==> after.rates()[entry].window_start == state.window_start
            &&& !running ==> after.rates()[entry] == (RateLimitState {
                count: 1,
                window_start: at.clock,
            })
        }),
{
    always_acting(before, ActionConfig::RateLimit { key, window, limit, status }, ctx, at);
}

/// A log line changes nothing of what comes behind it: the answer, the rate
/// limits and the other effects are those of the action that follows.
pub proof fn logging_changes_nothing(
    logging: CompiledFirewall,
    logged: CompiledFirewall,
    plain: CompiledFirewall,
    done: CompiledFirewall,
    level: LogLevel,
    message: Option<String>,
    action: ActionConfig,
    ctx: EvaluationContext,
    at: Moment,
    answer: EvaluationResultView,
    effects: Seq<EffectView>,
    plain_answer: EvaluationResultView,
    plain_effects: Seq<EffectView>,
)
    requires
        always_acts(
            logging,
            ActionConfig::Log { level, message, then_action: Some(Box::new(action)) },
        ),
        always_acts(plain, action),
        !(action is Jump) && !(action is Log),
        logging.lists() == plain.lists(),
        logging.rates() == plain.rates(),
        logging.default_policy() == plain.default_policy(),
        logging.evaluated(logged, ctx, at, answer, effects),
        plain.evaluated(done, ctx, at, plain_answer, plain_effects),
    ensures
        answer == plain_answer,
        logged.rates() == done.rates(),
        effects.len() == plain_effects.len() + 1,
        effects.skip(1) == plain_effects,
{
    let log = ActionConfig::Log { level, message, then_action: Some(Box::new(action)) };
    reveal_with_fuel(acted, 3);
    always_acting(logging, log, ctx, at);
    always_acting(plain, action, ctx, at);
    assert(effects.skip(1) =~= plain_effects);
}

/// A firewall that is switched off accepts every message, and does and counts
/// nothing.
pub proof fn switched_off_firewalls_accept(
    before: CompiledFirewall,
    after: CompiledFirewall,
    ctx: EvaluationContext,
    at: Moment,
    answer: EvaluationResultView,
    effects: Seq<EffectView>,
)
    requires
        !before.enabled(),
        before.evaluated(after, ctx, at, answer, effects),
    ensures
        answer is Accept,
        effects.len() == 0,
        after.rates() == before.rates(),
        after.counters() == before.counters(),
        after.chains() == before.chains(),
        after.lists() == before.lists(),
{
}

/// Where no input chain is there, the default policy answers every message.
pub proof fn only_input_chains_are_asked(
    before: CompiledFirewall,
    after: CompiledFirewall,
    ctx: EvaluationContext,
    at: Moment,
    answer: EvaluationResultView,
    effects: Seq<EffectView>,
)
    requires
        before.enabled(),
        forall|i: int|
            0 <= i < before.chains().len() ==> !((#[trigger] before.chains()[i]).chain_type is Input),
        before.evaluated(after, ctx, at, answer, effects),
    ensures
        before.default_policy() is Accept ==> answer is Accept,
        before.default_policy() is Drop ==> answer is Drop,
        before.default_policy() is Reject ==> answer == (EvaluationResultView::Reject {
            status: 8,
            reason: None,
        }),
        effects.len() == 0,
        after.rates() == before.rates(),
{
    no_input_chains(before.chains(), 0, ctx, before.lists(), before.rates(), at);
}

proof fn no_input_chains(
    chains: Seq<ChainView>,
    from: nat,
    ctx: EvaluationContext,
    lists: Lists,
    rates: Rates,
    at: Moment,
)
    requires
        forall|i: int| 0 <= i < chains.len() ==> !((#[trigger] chains[i]).chain_type is Input),
    ensures
        chains_run(chains, from, ctx, lists, rates, at).answer is Continue,
        chains_run(chains, from, ctx, lists, rates, at).rates == rates,
        chains_run(chains, from, ctx, lists, rates, at).effects.len() == 0,
    decreases chains.len() - from,
{
    if from < chains.len() {
        no_input_chains(chains, from + 1, ctx, lists, rates, at);
    }
}

/// A message that meets all conditions of a rule.
pub open spec fn meets(
    f: CompiledFirewall,
    rule: RuleView,
    ctx: EvaluationContext,
    at: Moment,
) -> bool {
    forall|i: int|
        0 <= i < rule.conditions.len() ==> (#[trigger] holds(
            rule.conditions[i],
            ctx,
            f.lists(),
            f.rates(),
            at,
        )).0
}

/// The first rule of the first chain that is switched on and whose conditions
/// are all met decides. Where there is none, the policy of the chain answers.
pub proof fn first_rule_that_matches_decides(
    before: CompiledFirewall,
    after: CompiledFirewall,
    n: int,
    ctx: EvaluationContext,
    at: Moment,
    answer: EvaluationResultView,
    effects: Seq<EffectView>,
)
    requires
        before.enabled(),
        before.chains().len() > 0,
        before.chains()[0].chain_type is Input,
        forall|i: int|
            0 <= i < before.chains()[0].rules.len() ==> all_count_nothing(
                (#[trigger] before.chains()[0].rules[i]).conditions,
            ),
        0 <= n <= before.chains()[0].rules.len(),
        forall|i: int|
            0 <= i < n ==> !(#[trigger] before.chains()[0].rules[i]).enabled || !meets(
                before,
                before.chains()[0].rules[i],
                ctx,
                at,
            ),
        before.evaluated(after, ctx, at, answer, effects),
    ensures
        n < before.chains()[0].rules.len() && before.chains()[0].rules[n].enabled && meets(
            before,
            before.chains()[0].rules[n],
            ctx,
            at,
        ) ==> match before.chains()[0].rules[n].action {
            ActionConfig::Accept => answer is Accept,
            ActionConfig::Drop => answer is Drop,
            ActionConfig::Quarantine => answer is Quarantine,
            ActionConfig::Reject { status, reason } => answer is Reject && answer->status == status,
            _ => true,
        },
        n == before.chains()[0].rules.len() ==> match before.chains()[0].policy {
            Policy::Accept => answer is Accept,
            Policy::Drop => answer is Drop,
            Policy::Reject => answer == (EvaluationResultView::Reject { status: 8, reason: None }),
        },
{
    let rules = before.chains()[0].rules;
    first_match_at(before, rules, n, ctx, at);
}

proof fn first_match_at(
    f: CompiledFirewall,
    rules: Seq<RuleView>,
    n: int,
    ctx: EvaluationContext,
    at: Moment,
)
    requires
        forall|i: int|
            0 <= i < rules.len() ==> all_count_nothing((#[trigger] rules[i]).conditions),
        0 <= n <= rules.len(),
        forall|i: int|
            0 <= i < n ==> !(#[trigger] rules[i]).enabled || !meets(f, rules[i], ctx, at),
    ensures
        n == rules.len() ==> first_match(rules, ctx, f.lists(), f.rates(), at) == (
            None::<nat>,
            f.rates(),
        ),
        n < rules.len() && rules[n].enabled && meets(f, rules[n], ctx, at) ==> first_match(
            rules,
            ctx,
            f.lists(),
            f.rates(),
            at,
        ) == (Some(n as nat), f.rates()),
    decreases rules.len(),
{
    if rules.len() > 0 {
        lists_of_conditions_are_met(rules[0].conditions, ctx, f.lists(), f.rates(), at);
        asking_all_changes_nothing(rules[0].conditions, ctx, f.lists(), f.rates(), at);
        if n > 0 {
            let rest = rules.drop_first();
            assert forall|i: int| 0 <= i < rest.len() implies (#[trigger] rest[i]) == rules[i + 1] by {}
            first_match_at(f, rest, n - 1, ctx, at);
        }
    }
}

/// A chain is compiled as it stands: its name, kind, priority and policy, and
/// of each rule the name, the switch, the action and the conditions.
pub proof fn chains_are_compiled_as_they_stand(config: ChainConfig, i: int)
    requires
        chain_of(config) is Ok,
        0 <= i < config.rules@.len(),
    ensures
        chain_of(config)->Ok_0.name == config.name@,
        chain_of(config)->Ok_0.chain_type == config.chain_type,
        chain_of(config)->Ok_0.priority == config.priority,
        chain_of(config)->Ok_0.policy == config.policy,
        chain_of(config)->Ok_0.rules.len() == config.rules@.len(),
        chain_of(config)->Ok_0.rules[i].enabled == config.rules@[i].enabled,
        chain_of(config)->Ok_0.rules[i].action == config.rules@[i].action,
        chain_of(config)->Ok_0.rules[i].name is Some <==> config.rules@[i].name is Some,
        config.rules@[i].name is Some ==> chain_of(config)->Ok_0.rules[i].name->0
            == config.rules@[i].name->0@,
        conditions_of(config.rules@[i].conditions@) is Ok,
        chain_of(config)->Ok_0.rules[i].conditions == conditions_of(
            config.rules@[i].conditions@,
        )->Ok_0,
{
    rules_compiled(config.rules@, i);
}

proof fn rules_compiled(configs: Seq<RuleConfig>, i: int)
    requires
        rules_of(configs) is Ok,
        0 <= i < configs.len(),
    ensures
        rules_of(configs)->Ok_0.len() == configs.len(),
        rule_of(configs[i]) is Ok,
        rules_of(configs)->Ok_0[i] == rule_of(configs[i])->Ok_0,
    decreases configs.len(),
{
    let front = configs.drop_last();
    if i < front.len() {
        rules_compiled(front, i);
        assert(front[i] == configs[i]);
    } else if front.len() > 0 {
        rules_compiled(front, 0);
    }
}

/// A time in hours and minutes of two digits each, with a colon between, is
/// read as these numbers.
pub proof fn times_are_hours_and_minutes(a: char, b: char, c: char, d: char)
    requires
        '0' <= a <= '9',
        '0' <= b <= '9',
        '0' <= c <= '9',
        '0' <= d <= '9',
    ensures
        clock_time(seq![a, b, ':', c, d]) is Ok,
        (clock_time(seq![a, b, ':', c, d])->Ok_0).0 == 10 * (a as int - '0' as int) + (b as int
            - '0' as int),
        (clock_time(seq![a, b, ':', c, d])->Ok_0).1 == 10 * (c as int - '0' as int) + (d as int
            - '0' as int),
{
    let text = seq![a, b, ':', c, d];
    let hour = seq![a, b];
    let minute = seq![c, d];
    let none = Seq::<char>::empty();
    assert(seq![a].drop_last() =~= none);
    assert(hour.drop_last() =~= seq![a]);
    assert(seq![c].drop_last() =~= none);
    assert(minute.drop_last() =~= seq![c]);
    assert(seq![a, b, ':'].drop_last() =~= hour);
    assert(seq![a, b, ':', c].drop_last() =~= seq![a, b, ':']);
    assert(text.drop_last() =~= seq![a, b, ':', c]);
    assert(split_text(none, ':') == seq![none]);
    assert(split_text(seq![a], ':') =~~= seq![seq![a]]);
    assert(split_text(hour, ':') =~~= seq![hour]);
    assert(split_text(seq![a, b, ':'], ':') =~~= seq![hour, none]);
    assert(split_text(seq![a, b, ':', c], ':') =~~= seq![hour, seq![c]]);
    assert(split_text(text, ':') =~~= seq![hour, minute]);
    reveal_with_fuel(digits_value, 3);
    assert(all_digits(hour));
    assert(all_digits(minute));
}

} // verus!
