//! What the answers of the message firewall mean, told by its settings and the
//! message alone.

use super::firewall::{
    allowed_view, answered, check_events, config_block, event_views, logged_all, rule_decision,
    rule_in_force, rule_matches, rules_outcome, submit_context, EsmeFirewallSettings, Firewall,
    FirewallAction, FirewallEventView, FirewallResultView, FirewallRule, MessageContext, RuleType,
};
use super::request::{SmppRequest, SmppResponse};
use crate::pdu::{Status, SubmitSm};
use crate::regexes::{regex_matches, regex_pattern};
use crate::text::{has_substring, leading_digits, lowercase, utf8_lossy};
use crate::time::{weekday_from_monday, zoned_reading, UtcTime};
use vstd::prelude::*;
use vstd::utf8::encode_utf8;

verus! {

/// A message is within the limits that hold for all clients: its length, its
/// data coding, its class, and where it goes.
pub open spec fn within_limits(f: Firewall, ctx: MessageContext) -> bool {
    &&& f.config().max_message_length is Some ==> encode_utf8(ctx.content@).len()
        <= f.config().max_message_length->0
    &&& f.config().min_message_length is Some ==> encode_utf8(ctx.content@).len()
        >= f.config().min_message_length->0
    &&& f.config().allowed_data_coding is Some && ctx.protocol.data_coding is Some
        ==> f.config().allowed_data_coding->0@.contains(ctx.protocol.data_coding->0)
    &&& ctx.protocol.esm_class is Some ==> !f.config().denied_esm_class@.contains(
        ctx.protocol.esm_class->0,
    )
    &&& f.config().block_premium_rate ==> {
        &&& !"1900"@.is_prefix_of(ctx.destination@)
        &&& !"1976"@.is_prefix_of(ctx.destination@)
        &&& !"0900"@.is_prefix_of(ctx.destination@)
        &&& !"0909"@.is_prefix_of(ctx.destination@)
        &&& !"0906"@.is_prefix_of(ctx.destination@)
        &&& !"0908"@.is_prefix_of(ctx.destination@)
        &&& !"0871"@.is_prefix_of(ctx.destination@)
        &&& !"0872"@.is_prefix_of(ctx.destination@)
        &&& !"0873"@.is_prefix_of(ctx.destination@)
    }
    &&& f.config().block_international && ctx.destination@.len() > 0 && ctx.destination@[0] == '+'
        ==> f.config().allowed_international@.contains(
        leading_digits(ctx.destination@.skip(1), 3),
    )
}

/// A message that is not within the limits is not allowed, whoever sends it and
/// whatever rules there are.
pub proof fn limits_hold_for_everyone(
    f: Firewall,
    after: Firewall,
    ctx: MessageContext,
    now: UtcTime,
    result: FirewallResultView,
)
    requires
        f.config().enabled,
        f.checked(after, ctx, now, result),
    ensures
        !within_limits(f, ctx) ==> !result.allowed && result.status is Some && result.matched_rule is Some,
        f.config().max_message_length is Some && encode_utf8(ctx.content@).len()
            > f.config().max_message_length->0 ==> !result.allowed && result.status == Some(
            Status::InvalidMessageLength,
        ) && result.matched_rule == Some("message_too_long"@),
        f.config().max_message_length is None && f.config().min_message_length is Some
            && encode_utf8(ctx.content@).len() < f.config().min_message_length->0
            ==> !result.allowed && result.status == Some(Status::InvalidMessageLength)
            && result.matched_rule == Some("message_too_short"@),
        f.config().max_message_length is None && f.config().min_message_length is None
            && !within_limits(f, ctx) ==> result.status == Some(Status::InvalidDestAddress),
{
    if !within_limits(f, ctx) {
        assert(config_block(f.config(), ctx) is Some);
    }
}

/// Settings of a client with which its lists let a message pass: it is on no
/// list of what is denied, and on every list of what is allowed.
pub open spec fn lists_pass(s: EsmeFirewallSettings, ctx: MessageContext) -> bool {
    &&& !s.destination_deny_list@.contains(ctx.destination@)
    &&& s.destination_allow_list is Some ==> s.destination_allow_list->0@.contains(ctx.destination@)
    &&& !s.source_deny_list@.contains(ctx.source@)
    &&& s.source_allow_list is Some ==> s.source_allow_list->0@.contains(ctx.source@)
    &&& !s.sender_deny_list@.contains(ctx.sender_id@)
    &&& s.sender_allow_list is Some ==> s.sender_allow_list->0@.contains(ctx.sender_id@)
}

/// The lists of a client block what they deny and what they do not allow: the
/// lists of destinations by the destination, those of sources by the source
/// address, and those of senders by the sender ID, whatever rules there are.
/// A wrong destination is answered as such, and everything else as a wrong
/// source.
pub proof fn lists_block_their_messages(
    f: Firewall,
    after: Firewall,
    ctx: MessageContext,
    now: UtcTime,
    result: FirewallResultView,
)
    requires
        f.config().enabled,
        f.settings().dom().contains(ctx.system_id@),
        f.checked(after, ctx, now, result),
    ensures
        ({
            let s = f.settings()[ctx.system_id@];
            let bad_destination = s.destination_deny_list@.contains(ctx.destination@) || (
            s.destination_allow_list is Some && !s.destination_allow_list->0@.contains(
                ctx.destination@,
            ));
            let bad_source = s.source_deny_list@.contains(ctx.source@) || (
            s.source_allow_list is Some && !s.source_allow_list->0@.contains(ctx.source@));
            let bad_sender = s.sender_deny_list@.contains(ctx.sender_id@) || (
            s.sender_allow_list is Some && !s.sender_allow_list->0@.contains(ctx.sender_id@));
            &&& bad_destination || bad_source || bad_sender ==> !result.allowed
            &&& within_limits(f, ctx) && bad_destination ==> result.status == Some(
                Status::InvalidDestAddress,
            )
            &&& within_limits(f, ctx) && !bad_destination && (bad_source || bad_sender)
                ==> result.status == Some(Status::InvalidSourceAddress)
            &&& within_limits(f, ctx) && s.destination_deny_list@.contains(ctx.destination@)
                && s.destination_allow_list is None ==> result.matched_rule == Some(
                "destination_in_deny_list"@,
            )
            &&& within_limits(f, ctx) && s.destination_allow_list is Some
                && !s.destination_allow_list->0@.contains(ctx.destination@) ==> result.matched_rule
                == Some("destination_not_in_allow_list"@)
            &&& within_limits(f, ctx) && !bad_destination && bad_source && s.source_allow_list is None
                ==> result.matched_rule == Some("source_in_deny_list"@)
            &&& within_limits(f, ctx) && !bad_destination && s.source_allow_list is Some
                && !s.source_allow_list->0@.contains(ctx.source@) ==> result.matched_rule == Some(
                "source_not_in_allow_list"@,
            )
            &&& within_limits(f, ctx) && !bad_destination && !bad_source && bad_sender
                && s.sender_allow_list is None ==> result.matched_rule == Some(
                "sender_in_deny_list"@,
            )
            &&& within_limits(f, ctx) && !bad_destination && !bad_source && s.sender_allow_list is Some
                && !s.sender_allow_list->0@.contains(ctx.sender_id@) ==> result.matched_rule
                == Some("sender_not_in_allow_list"@)
        }),
{
    limits_hold_for_everyone(f, after, ctx, now, result);
}

/// Where the limits and the lists let a message pass and no rules are there,
/// the default action decides: only a block keeps the message back.
pub proof fn nothing_else_blocks(
    f: Firewall,
    after: Firewall,
    ctx: MessageContext,
    now: UtcTime,
    result: FirewallResultView,
)
    requires
        f.config().enabled,
        within_limits(f, ctx),
        f.settings().dom().contains(ctx.system_id@) ==> lists_pass(
            f.settings()[ctx.system_id@],
            ctx,
        ) && f.settings()[ctx.system_id@].rules@.len() == 0,
        f.rules().len() == 0,
        f.checked(after, ctx, now, result),
    ensures
        result.allowed <==> !(f.config().default_action is Block),
        f.config().default_action matches FirewallAction::Block(status) ==> result.status == Some(
            status,
        ) && result.matched_rule == Some("default_block"@),
{
}

/// A firewall that is switched off allows every message, and logs nothing.
pub proof fn switched_off_firewalls_allow(
    f: Firewall,
    after: Firewall,
    ctx: MessageContext,
    now: UtcTime,
    result: FirewallResultView,
)
    requires
        !f.config().enabled,
        f.checked(after, ctx, now, result),
    ensures
        result.allowed,
        result.status is None,
        after.log() == f.log(),
{
}

/// A firewall lets every message pass up to its only rule, which is for all
/// clients and switched on.
pub open spec fn only_rule(f: Firewall, rule: FirewallRule, ctx: MessageContext) -> bool {
    &&& f.config().enabled
    &&& f.config().default_action is Allow
    &&& within_limits(f, ctx)
    &&& !f.settings().dom().contains(ctx.system_id@)
    &&& f.rules() == seq![rule]
    &&& rule.enabled
    &&& rule.esme_id is None
}

proof fn only_rule_decides(
    f: Firewall,
    after: Firewall,
    rule: FirewallRule,
    ctx: MessageContext,
    now: UtcTime,
    result: FirewallResultView,
)
    requires
        only_rule(f, rule, ctx),
        f.checked(after, ctx, now, result),
    ensures
        result == if rule_matches(rule.rule_type, ctx, now) {
            match rule_decision(rule) {
                Some(r) => r,
                None => allowed_view(),
            }
        } else {
            allowed_view()
        },
{
    assert(f.rules().drop_first() =~= seq![]);
    reveal_with_fuel(rules_outcome, 2);
    assert(config_block(f.config(), ctx) is None);
}

/// A rule that blocks keeps back exactly the messages that it looks for: each
/// kind of rule looks at its own part of the message.
pub proof fn rules_look_at_their_part(
    f: Firewall,
    after: Firewall,
    rule: FirewallRule,
    ctx: MessageContext,
    now: UtcTime,
    result: FirewallResultView,
)
    requires
        only_rule(f, rule, ctx),
        rule.action is Block,
        f.checked(after, ctx, now, result),
    ensures
        rule.rule_type matches RuleType::Keyword(kw) ==> (!result.allowed <==> has_substring(
            lowercase(ctx.content@),
            lowercase(kw@),
        )),
        rule.rule_type matches RuleType::Pattern(re) ==> (!result.allowed <==> regex_matches(
            regex_pattern(re),
            ctx.content@,
        )),
        rule.rule_type matches RuleType::SenderId(id) ==> (!result.allowed <==> lowercase(
            ctx.sender_id@,
        ) == lowercase(id@)),
        rule.rule_type matches RuleType::DestinationPrefix(p) ==> (!result.allowed
            <==> p@.is_prefix_of(ctx.destination@)),
        rule.rule_type matches RuleType::SourcePrefix(p) ==> (!result.allowed <==> p@.is_prefix_of(
            ctx.source@,
        )),
        rule.rule_type matches RuleType::DestinationList(l) ==> (!result.allowed <==> l@.contains(
            ctx.destination@,
        )),
        rule.rule_type matches RuleType::SourceList(l) ==> (!result.allowed <==> l@.contains(
            ctx.source@,
        )),
        rule.rule_type matches RuleType::Protocol(p) ==> (!result.allowed <==> {
            &&& p.esm_class is None || p.esm_class == ctx.protocol.esm_class
            &&& p.protocol_id is None || p.protocol_id == ctx.protocol.protocol_id
            &&& p.data_coding is None || p.data_coding == ctx.protocol.data_coding
            &&& p.source_addr_ton is None || p.source_addr_ton == ctx.protocol.source_addr_ton
            &&& p.source_addr_npi is None || p.source_addr_npi == ctx.protocol.source_addr_npi
            &&& p.dest_addr_ton is None || p.dest_addr_ton == ctx.protocol.dest_addr_ton
            &&& p.dest_addr_npi is None || p.dest_addr_npi == ctx.protocol.dest_addr_npi
        }),
{
    only_rule_decides(f, after, rule, ctx, now, result);
}

/// A rule that blocks in a window of time keeps back the messages of its days,
/// or of every day where it names none, from the first time to the last, both
/// included. A window whose last time comes before its first runs over
/// midnight, and one in a zone that is not known is never open.
pub proof fn windows_are_open_at_their_time(
    f: Firewall,
    after: Firewall,
    rule: FirewallRule,
    ctx: MessageContext,
    now: UtcTime,
    result: FirewallResultView,
)
    requires
        only_rule(f, rule, ctx),
        rule.action is Block,
        rule.rule_type is TimeWindow,
        f.checked(after, ctx, now, result),
    ensures
        ({
            let w = rule.rule_type->TimeWindow_0;
            let reading = zoned_reading(w.timezone@, now.secs, now.nanos);
            let second = (reading->0).1 as int;
            let nano = (reading->0).2 as int;
            let on_day = w.days@.len() == 0 || w.days@.contains(
                weekday_from_monday((reading->0).0 as int),
            );
            let begun = w.start.secs < second || w.start.secs == second && w.start.nanos <= nano;
            let running = second < w.end.secs || second == w.end.secs && nano <= w.end.nanos;
            let in_order = w.start.secs < w.end.secs || w.start.secs == w.end.secs && w.start.nanos
                <= w.end.nanos;
            &&& reading is None ==> result.allowed
            &&& reading is Some && !on_day ==> result.allowed
            &&& reading is Some && on_day && in_order ==> (!result.allowed <==> begun && running)
            &&& reading is Some && on_day && !in_order ==> (!result.allowed <==> begun || running)
        }),
{
    only_rule_decides(f, after, rule, ctx, now, result);
}

/// What becomes of a message that a rule matches is what the action of the rule
/// says: a block and a quarantine keep it back, everything else lets it pass.
pub proof fn actions_decide(
    f: Firewall,
    after: Firewall,
    rule: FirewallRule,
    ctx: MessageContext,
    now: UtcTime,
    result: FirewallResultView,
)
    requires
        only_rule(f, rule, ctx),
        rule.rule_type matches RuleType::DestinationPrefix(p) && p@.is_prefix_of(ctx.destination@),
        f.checked(after, ctx, now, result),
    ensures
        result.allowed <==> !(rule.action is Block) && !(rule.action is Quarantine),
        rule.action matches FirewallAction::Block(status) ==> result.status == Some(status)
            && result.action == rule.action && result.matched_rule == Some(rule.name@),
        rule.action is Quarantine ==> result.status == Some(Status::SystemError) && result.action
            == rule.action && result.matched_rule == Some(rule.name@),
        rule.action is Modify ==> result.action == rule.action && result.matched_rule == Some(
            rule.name@,
        ) && result.status is None,
        rule.action is Allow || rule.action is Log || rule.action is Alarm ==> result.status is None,
{
    only_rule_decides(f, after, rule, ctx, now, result);
}

/// A rule that is switched off, and one that is for another client, changes
/// nothing.
pub proof fn rules_of_others_do_not_count(
    f: Firewall,
    after: Firewall,
    rule: FirewallRule,
    ctx: MessageContext,
    now: UtcTime,
    result: FirewallResultView,
)
    requires
        f.config().enabled,
        f.config().default_action is Allow,
        within_limits(f, ctx),
        !f.settings().dom().contains(ctx.system_id@),
        f.rules() == seq![rule],
        !rule.enabled || (rule.esme_id is Some && rule.esme_id->0@ != ctx.system_id@),
        f.checked(after, ctx, now, result),
    ensures
        result.allowed,
{
    assert(f.rules().drop_first() =~= seq![]);
    reveal_with_fuel(rules_outcome, 2);
    assert(config_block(f.config(), ctx) is None);
}

/// The rules of a client come before those for all: where the first rule of the
/// client allows or blocks a message that the lists let pass, that decides.
pub proof fn rules_of_the_client_come_first(
    f: Firewall,
    after: Firewall,
    ctx: MessageContext,
    now: UtcTime,
    result: FirewallResultView,
)
    requires
        f.config().enabled,
        within_limits(f, ctx),
        f.settings().dom().contains(ctx.system_id@),
        lists_pass(f.settings()[ctx.system_id@], ctx),
        f.settings()[ctx.system_id@].rules@.len() > 0,
        f.settings()[ctx.system_id@].rules@[0].enabled,
        f.settings()[ctx.system_id@].rules@[0].rule_type matches RuleType::DestinationPrefix(p)
            && p@.is_prefix_of(ctx.destination@),
        f.checked(after, ctx, now, result),
    ensures
        f.settings()[ctx.system_id@].rules@[0].action is Allow ==> result.allowed,
        f.settings()[ctx.system_id@].rules@[0].action is Block ==> !result.allowed,
{
    let rules = f.settings()[ctx.system_id@].rules@;
    assert(config_block(f.config(), ctx) is None);
    assert(rule_in_force(rules[0], false, ctx, now));
}

/// Every check is logged last with what the message was and what became of it,
/// under its addresses, its sender, its client and the beginning of its text.
pub proof fn checks_are_logged(
    f: Firewall,
    after: Firewall,
    ctx: MessageContext,
    now: UtcTime,
    result: FirewallResultView,
)
    requires
        f.config().enabled,
        f.checked(after, ctx, now, result),
    ensures
        after.log().events().len() > 0,
        ({
            let e = after.log().events().last()@;
            &&& e.timestamp == now
            &&& e.source == ctx.source@
            &&& e.destination == ctx.destination@
            &&& e.sender_id == ctx.sender_id@
            &&& e.system_id == ctx.system_id@
            &&& e.action == result.action
            &&& e.rule_name == result.matched_rule
            &&& ctx.content@.len() <= 50 ==> e.content_preview == ctx.content@
            &&& ctx.content@.len() > 50 ==> e.content_preview.len() == 50
                && e.content_preview.is_prefix_of(ctx.content@)
            &&& result.allowed && !(result.action is Log) ==> e.event_type is Allowed
            &&& !result.allowed && !(result.action is Quarantine) ==> e.event_type is Blocked
            &&& !result.allowed && result.action is Quarantine ==> e.event_type is Quarantined
        }),
        f.log().events().len() < f.log().limit() && f.rules().len() == 0
            && !f.settings().dom().contains(ctx.system_id@) ==> after.log().events().len()
            == f.log().events().len() + 1,
{
    let before = event_views(f.log().events());
    let events = check_events(f.outcome(ctx, now), ctx, now);
    let all = logged_all(before, f.log().limit(), events);
    assert(all.last() == events.last());
    assert(event_views(after.log().events()) == all);
    assert(event_views(after.log().events()).last() == after.log().events().last()@);
    if f.rules().len() == 0 && !f.settings().dom().contains(ctx.system_id@) {
        assert(events.len() == 1);
        assert(events.drop_last() =~= Seq::<FirewallEventView>::empty());
        assert(logged_all(before, f.log().limit(), events.drop_last()) == before);
    }
}

/// A submitted message is checked by its own fields: its text, its source both
/// as address and as sender, its destination and its parameters.
pub proof fn submitted_messages_are_checked_as_they_are(sm: SubmitSm, ctx: MessageContext)
    requires
        submit_context(sm, ctx),
    ensures
        ctx.content@ == utf8_lossy(sm.short_message@),
        ctx.source@ == sm.source_addr@,
        ctx.sender_id@ == sm.source_addr@,
        ctx.destination@ == sm.dest_addr@,
        ctx.protocol.esm_class == Some(sm.esm_class),
        ctx.protocol.protocol_id == Some(sm.protocol_id),
        ctx.protocol.data_coding == Some(sm.data_coding),
        ctx.protocol.source_addr_ton == Some(sm.source_addr_ton),
        ctx.protocol.source_addr_npi == Some(sm.source_addr_npi),
        ctx.protocol.dest_addr_ton == Some(sm.dest_addr_ton),
        ctx.protocol.dest_addr_npi == Some(sm.dest_addr_npi),
{
}

/// A message goes on exactly when the firewall allows it, and then unchanged;
/// else it is answered under its sequence number with the status that the
/// firewall gave.
pub proof fn answers_follow_the_firewall(
    req: SmppRequest,
    result: FirewallResultView,
    response: SmppResponse,
)
    requires
        answered(req, result, response),
    ensures
        response is Continue <==> result.allowed,
        result.allowed ==> response->Continue_0 == req,
        !result.allowed ==> response is Reject && response->Reject_sequence == req.sequence,
        !result.allowed && result.status is Some ==> response->Reject_status == result.status->0,
        !result.allowed && result.status is None ==> response->Reject_status is InvalidDestAddress,
{
}

} // verus!
