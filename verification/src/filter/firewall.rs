//! Content and sender firewall.
//!
//! A message is held against limits of the configuration, against the lists
//! and rules of the submitting ESME, and against the global rules in order of
//! priority. Every verdict goes to a bounded event log.

use crate::collections::{text_set, StringMap, StringSet};
use crate::filter::request::{SmppRequest, SmppResponse};
use crate::pdu::{Pdu, Status, SubmitSm};
use crate::regexes::{compile, is_match, regex_matches, regex_pattern, regex_valid};
use crate::text::{
    contains, copy_opt, decode_lossy, first_chars, has_substring, leading_digits, lowercase,
    opt_text, same, starts_with, take_chars, take_digits, to_chars, to_lowercase, utf8_lossy,
};
use crate::time::{
    is_zone, not_after, parse_time, parsed_time, read_in_zone, utc_now, weekday_from_monday,
    zone_known, zoned_reading, TimeOfDay, UtcTime, Weekday,
};
use std::collections::{HashSet, VecDeque};
use vstd::prelude::*;
use vstd::utf8::encode_utf8;

verus! {

broadcast use vstd::std_specs::hash::group_hash_axioms;

/// What to do with a message that a rule matches.
#[derive(Debug, Clone, Copy, PartialEq, Eq, Structural)]
pub enum FirewallAction {
    /// Allow the message.
    Allow,
    /// Block it with a status.
    Block(Status),
    /// Log it and go on.
    Log,
    /// Keep it for review.
    Quarantine,
    /// Modify it.
    Modify,
    /// Raise an alarm and go on.
    Alarm,
}

impl Default for FirewallAction {
    fn default() -> (a: Self)
        ensures
            a == FirewallAction::Block(Status::InvalidDestAddress),
    {
        FirewallAction::Block(Status::InvalidDestAddress)
    }
}

/// A span of the day, on some days of the week, in a time zone. The span may
/// run over midnight.
#[derive(Debug)]
pub struct TimeWindow {
    /// First time of the span.
    pub start: TimeOfDay,
    /// Last time of the span.
    pub end: TimeOfDay,
    /// Days of the week; none stands for all.
    pub days: Vec<Weekday>,
    /// Name of the time zone.
    pub timezone: String,
}

/// A window is open at a local day and time.
pub open spec fn window_open(w: TimeWindow, day: Weekday, time: TimeOfDay) -> bool {
    &&& w.days@.len() == 0 || w.days@.contains(day)
    &&& if not_after(w.start, w.end) {
        not_after(w.start, time) && not_after(time, w.end)
    } else {
        not_after(w.start, time) || not_after(time, w.end)
    }
}

/// A window is open at a moment.
pub open spec fn window_active(w: TimeWindow, now: UtcTime) -> bool {
    match zoned_reading(w.timezone@, now.secs, now.nanos) {
        Some(r) => window_open(
            w,
            weekday_from_monday(r.0 as int),
            TimeOfDay { secs: r.1, nanos: r.2 },
        ),
        None => false,
    }
}

/// A list of days without the days that stand in it a second time.
pub open spec fn distinct_days(days: Seq<Weekday>) -> bool {
    forall|i: int, j: int| 0 <= i < j < days.len() ==> days[i] != days[j]
}

fn has_day(days: &Vec<Weekday>, day: Weekday) -> (b: bool)
    ensures
        b == days@.contains(day),
{
    let mut i: usize = 0;
    while i < days.len()
        invariant
            i <= days.len(),
            forall|j: int| 0 <= j < i ==> days@[j] != day,
        decreases days.len() - i,
    {
        if days[i] == day {
            assert(days@[i as int] == day);
            return true;
        }
        i += 1;
    }
    false
}

impl TimeWindow {
    /// A window on all days, from times in the form `HH:MM` and the name of a
    /// time zone.
    pub fn new(start: &str, end: &str, timezone: &str) -> (w: Option<Self>)
        ensures
            w is Some <==> parsed_time(start@, "%H:%M"@) is Some && parsed_time(
                end@,
                "%H:%M"@,
            ) is Some && zone_known(timezone@),
            w matches Some(x) ==> {
                &&& parsed_time(start@, "%H:%M"@) == Some((x.start.secs, x.start.nanos))
                &&& parsed_time(end@, "%H:%M"@) == Some((x.end.secs, x.end.nanos))
                &&& x.days@ == Seq::<Weekday>::empty()
                &&& x.timezone@ == timezone@
            },
    {
        let start = match parse_time(start, "%H:%M") {
            Some(t) => TimeOfDay { secs: t.0, nanos: t.1 },
            None => return None,
        };
        let end = match parse_time(end, "%H:%M") {
            Some(t) => TimeOfDay { secs: t.0, nanos: t.1 },
            None => return None,
        };
        if !is_zone(timezone) {
            return None;
        }
        Some(TimeWindow { start, end, days: Vec::new(), timezone: timezone.to_owned() })
    }

    /// Sets the days.
    pub fn with_days(self, days: Vec<Weekday>) -> (w: Self)
        ensures
            w.start == self.start,
            w.end == self.end,
            w.timezone == self.timezone,
            distinct_days(w.days@),
            forall|d: Weekday| w.days@.contains(d) <==> days@.contains(d),
    {
        let mut kept: Vec<Weekday> = Vec::new();
        let mut i: usize = 0;
        while i < days.len()
            invariant
                i <= days.len(),
                distinct_days(kept@),
                forall|d: Weekday| kept@.contains(d) <==> days@.take(i as int).contains(d),
            decreases days.len() - i,
        {
            let day = days[i];
            let ghost before = kept@;
            let ghost seen = days@.take(i as int);
            assert(days@.take(i + 1) == seen.push(day));
            if !has_day(&kept, day) {
                kept.push(day);
                assert(kept@[before.len() as int] == day);
                assert(forall|j: int| 0 <= j < before.len() ==> before.contains(before[j]));
            }
            proof {
                assert forall|d: Weekday| kept@.contains(d) <==> seen.push(day).contains(d) by {
                    if before.contains(d) {
                        assert(kept@[before.index_of(d)] == d);
                    }
                    if seen.contains(d) {
                        assert(seen.push(day)[seen.index_of(d)] == d);
                    }
                    assert(seen.push(day)[seen.len() as int] == day);
                    if kept@.contains(d) {
                        let j = kept@.index_of(d);
                        if j < before.len() {
                            assert(before[j] == d);
                        }
                    }
                    if seen.push(day).contains(d) {
                        let j = seen.push(day).index_of(d);
                        if j < seen.len() {
                            assert(seen[j] == d);
                        }
                    }
                }
            }
            i += 1;
        }
        assert(days@.take(days@.len() as int) == days@);
        TimeWindow { days: kept, ..self }
    }

    /// Whether the window is open at a moment.
    pub fn is_active_at(&self, now: &UtcTime) -> (b: bool)
        ensures
            b == window_active(*self, *now),
    {
        let r = match read_in_zone(self.timezone.as_str(), now.secs, now.nanos) {
            Some(r) => r,
            None => return false,
        };
        let day = Weekday::from_monday(r.0);
        let time = TimeOfDay { secs: r.1, nanos: r.2 };
        if self.days.len() != 0 && !has_day(&self.days, day) {
            return false;
        }
        if self.start.not_after(&self.end) {
            self.start.not_after(&time) && time.not_after(&self.end)
        } else {
            self.start.not_after(&time) || time.not_after(&self.end)
        }
    }

    /// Whether the window is open now.
    pub fn is_active(&self) -> (b: bool)
        ensures
            exists|now: UtcTime| b == window_active(*self, now),
    {
        let now = utc_now();
        self.is_active_at(&now)
    }
}

/// Protocol parameters of a message. Nothing stands for any value.
#[derive(Debug, Clone, Copy, PartialEq, Eq, Structural)]
pub struct ProtocolParams {
    /// ESM class (message mode and type).
    pub esm_class: Option<u8>,
    /// Protocol ID.
    pub protocol_id: Option<u8>,
    /// Data coding scheme.
    pub data_coding: Option<u8>,
    /// Source address TON.
    pub source_addr_ton: Option<u8>,
    /// Source address NPI.
    pub source_addr_npi: Option<u8>,
    /// Destination address TON.
    pub dest_addr_ton: Option<u8>,
    /// Destination address NPI.
    pub dest_addr_npi: Option<u8>,
}

impl Default for ProtocolParams {
    fn default() -> (p: Self)
        ensures
            p == (ProtocolParams {
                esm_class: None,
                protocol_id: None,
                data_coding: None,
                source_addr_ton: None,
                source_addr_npi: None,
                dest_addr_ton: None,
                dest_addr_npi: None,
            }),
    {
        ProtocolParams {
            esm_class: None,
            protocol_id: None,
            data_coding: None,
            source_addr_ton: None,
            source_addr_npi: None,
            dest_addr_ton: None,
            dest_addr_npi: None,
        }
    }
}

/// What a rule looks for.
#[derive(Debug)]
pub enum RuleType {
    /// A keyword in the content, in any case.
    Keyword(String),
    /// A regular expression that matches the content.
    Pattern(regex::Regex),
    /// A sender ID, in any case.
    SenderId(String),
    /// A prefix of the destination.
    DestinationPrefix(String),
    /// A prefix of the source.
    SourcePrefix(String),
    /// A list with the destination.
    DestinationList(StringSet),
    /// A list with the source.
    SourceList(StringSet),
    /// Protocol parameters.
    Protocol(ProtocolParams),
    /// A time window that is open.
    TimeWindow(TimeWindow),
    /// All of several.
    All(Vec<RuleType>),
    /// One of several.
    Any(Vec<RuleType>),
}

/// The message that a firewall looks at.
#[derive(Debug)]
pub struct MessageContext {
    /// Message content.
    pub content: String,
    /// Sender ID.
    pub sender_id: String,
    /// Destination address.
    pub destination: String,
    /// Source address.
    pub source: String,
    /// System ID of the submitting client.
    pub system_id: String,
    /// Protocol parameters.
    pub protocol: ProtocolParams,
}

/// A wanted parameter value is there; no value is always there.
pub open spec fn param_matches(wanted: Option<u8>, actual: Option<u8>) -> bool {
    wanted is None || actual == wanted
}

/// A rule matches a message at a moment.
pub open spec fn rule_matches(rule: RuleType, ctx: MessageContext, now: UtcTime) -> bool
    decreases rule,
{
    match rule {
        RuleType::Keyword(kw) => has_substring(lowercase(ctx.content@), lowercase(kw@)),
        RuleType::Pattern(re) => regex_matches(regex_pattern(re), ctx.content@),
        RuleType::SenderId(id) => lowercase(ctx.sender_id@) == lowercase(id@),
        RuleType::DestinationPrefix(prefix) => prefix@.is_prefix_of(ctx.destination@),
        RuleType::SourcePrefix(prefix) => prefix@.is_prefix_of(ctx.source@),
        RuleType::DestinationList(list) => list@.contains(ctx.destination@),
        RuleType::SourceList(list) => list@.contains(ctx.source@),
        RuleType::Protocol(p) => {
            &&& param_matches(p.esm_class, ctx.protocol.esm_class)
            &&& param_matches(p.protocol_id, ctx.protocol.protocol_id)
            &&& param_matches(p.data_coding, ctx.protocol.data_coding)
            &&& param_matches(p.source_addr_ton, ctx.protocol.source_addr_ton)
            &&& param_matches(p.source_addr_npi, ctx.protocol.source_addr_npi)
            &&& param_matches(p.dest_addr_ton, ctx.protocol.dest_addr_ton)
            &&& param_matches(p.dest_addr_npi, ctx.protocol.dest_addr_npi)
        },
        RuleType::TimeWindow(w) => window_active(w, now),
        RuleType::All(rules) => all_match(rules@, ctx, now),
        RuleType::Any(rules) => any_matches(rules@, ctx, now),
    }
}

/// Every rule of a list matches.
pub open spec fn all_match(rules: Seq<RuleType>, ctx: MessageContext, now: UtcTime) -> bool
    decreases rules,
{
    rules.len() == 0 || (all_match(rules.drop_last(), ctx, now) && rule_matches(
        rules.last(),
        ctx,
        now,
    ))
}

/// Some rule of a list matches.
pub open spec fn any_matches(rules: Seq<RuleType>, ctx: MessageContext, now: UtcTime) -> bool
    decreases rules,
{
    rules.len() > 0 && (any_matches(rules.drop_last(), ctx, now) || rule_matches(
        rules.last(),
        ctx,
        now,
    ))
}

/// A combined rule of all rules of a list matches exactly when each of them
/// does.
pub proof fn all_rules_match(rules: Seq<RuleType>, ctx: MessageContext, now: UtcTime)
    ensures
        all_match(rules, ctx, now) <==> forall|i: int|
            0 <= i < rules.len() ==> #[trigger] rule_matches(rules[i], ctx, now),
    decreases rules.len(),
{
    if rules.len() > 0 {
        let init = rules.drop_last();
        all_rules_match(init, ctx, now);
        if all_match(rules, ctx, now) {
            assert forall|i: int| 0 <= i < rules.len() implies #[trigger] rule_matches(
                rules[i],
                ctx,
                now,
            ) by {
                if i < init.len() {
                    assert(init[i] == rules[i]);
                }
            }
        }
        if forall|i: int| 0 <= i < rules.len() ==> #[trigger] rule_matches(rules[i], ctx, now) {
            assert forall|i: int| 0 <= i < init.len() implies #[trigger] rule_matches(
                init[i],
                ctx,
                now,
            ) by {
                assert(init[i] == rules[i]);
            }
            assert(rule_matches(rules[rules.len() - 1], ctx, now));
        }
    }
}

/// A combined rule of any rule of a list matches exactly when one of them
/// does.
pub proof fn any_rule_matches(rules: Seq<RuleType>, ctx: MessageContext, now: UtcTime)
    ensures
        any_matches(rules, ctx, now) <==> exists|i: int|
            0 <= i < rules.len() && #[trigger] rule_matches(rules[i], ctx, now),
    decreases rules.len(),
{
    if rules.len() > 0 {
        let init = rules.drop_last();
        any_rule_matches(init, ctx, now);
        if any_matches(init, ctx, now) {
            let i = choose|i: int|
                0 <= i < init.len() && #[trigger] rule_matches(init[i], ctx, now);
            assert(rule_matches(rules[i], ctx, now));
        }
        if rule_matches(rules.last(), ctx, now) {
            assert(rule_matches(rules[rules.len() - 1], ctx, now));
        }
        if exists|i: int| 0 <= i < rules.len() && #[trigger] rule_matches(rules[i], ctx, now) {
            let i = choose|i: int|
                0 <= i < rules.len() && #[trigger] rule_matches(rules[i], ctx, now);
            if i < init.len() {
                assert(rule_matches(init[i], ctx, now));
            }
        }
    }
}

fn has_param(wanted: Option<u8>, actual: Option<u8>) -> (b: bool)
    ensures
        b == param_matches(wanted, actual),
{
    match (wanted, actual) {
        (None, _) => true,
        (Some(w), Some(a)) => w == a,
        (Some(_), None) => false,
    }
}

impl RuleType {
    /// Whether the rule matches a message at a moment.
    pub fn matches_at(&self, ctx: &MessageContext, now: &UtcTime) -> (b: bool)
        ensures
            b == rule_matches(*self, *ctx, *now),
        decreases self,
    {
        match self {
            RuleType::Keyword(kw) => {
                let content = to_lowercase(ctx.content.as_str());
                let word = to_lowercase(kw.as_str());
                contains(content.as_str(), word.as_str())
            },
            RuleType::Pattern(re) => is_match(re, ctx.content.as_str()),
            RuleType::SenderId(id) => {
                let sender = to_lowercase(ctx.sender_id.as_str());
                let wanted = to_lowercase(id.as_str());
                same(sender.as_str(), wanted.as_str())
            },
            RuleType::DestinationPrefix(prefix) => starts_with(
                ctx.destination.as_str(),
                prefix.as_str(),
            ),
            RuleType::SourcePrefix(prefix) => starts_with(ctx.source.as_str(), prefix.as_str()),
            RuleType::DestinationList(list) => list.contains(ctx.destination.as_str()),
            RuleType::SourceList(list) => list.contains(ctx.source.as_str()),
            RuleType::Protocol(p) => {
                let actual = &ctx.protocol;
                has_param(p.esm_class, actual.esm_class) && has_param(
                    p.protocol_id,
                    actual.protocol_id,
                ) && has_param(p.data_coding, actual.data_coding) && has_param(
                    p.source_addr_ton,
                    actual.source_addr_ton,
                ) && has_param(p.source_addr_npi, actual.source_addr_npi) && has_param(
                    p.dest_addr_ton,
                    actual.dest_addr_ton,
                ) && has_param(p.dest_addr_npi, actual.dest_addr_npi)
            },
            RuleType::TimeWindow(w) => w.is_active_at(now),
            RuleType::All(rules) => {
                let mut i: usize = 0;
                while i < rules.len()
                    invariant
                        i <= rules.len(),
                        *self == RuleType::All(*rules),
                        decreases_to!(self => rules),
                        all_match(rules@.take(i as int), *ctx, *now),
                    decreases rules.len() - i,
                {
                    let ghost next = rules@.take(i + 1);
                    assert(next.drop_last() == rules@.take(i as int));
                    if !rules[i].matches_at(ctx, now) {
                        proof {
                            all_rules_match(rules@, *ctx, *now);
                        }
                        return false;
                    }
                    i += 1;
                }
                assert(rules@.take(i as int) == rules@);
                true
            },
            RuleType::Any(rules) => {
                let mut i: usize = 0;
                while i < rules.len()
                    invariant
                        i <= rules.len(),
                        *self == RuleType::Any(*rules),
                        decreases_to!(self => rules),
                        !any_matches(rules@.take(i as int), *ctx, *now),
                    decreases rules.len() - i,
                {
                    let ghost next = rules@.take(i + 1);
                    assert(next.drop_last() == rules@.take(i as int));
                    if rules[i].matches_at(ctx, now) {
                        proof {
                            any_rule_matches(rules@, *ctx, *now);
                        }
                        return true;
                    }
                    i += 1;
                }
                assert(rules@.take(i as int) == rules@);
                false
            },
        }
    }

    /// Whether the rule matches a message now.
    pub fn matches(&self, ctx: &MessageContext) -> (b: bool)
        ensures
            exists|now: UtcTime| b == #[trigger] rule_matches(*self, *ctx, now),
    {
        let now = utc_now();
        self.matches_at(ctx, &now)
    }
}

/// A firewall rule.
#[derive(Debug)]
pub struct FirewallRule {
    /// Name of the rule.
    pub name: String,
    /// What it looks for.
    pub rule_type: RuleType,
    /// What to do when it matches.
    pub action: FirewallAction,
    /// Priority; rules with a higher one are checked first.
    pub priority: i32,
    /// Whether the rule is used at all.
    pub enabled: bool,
    /// Description.
    pub description: Option<String>,
    /// The ESME that the rule is for; nothing stands for all.
    pub esme_id: Option<String>,
}

/// A rule with default settings: of priority zero, enabled, for every ESME.
pub open spec fn plain_rule(
    r: FirewallRule,
    name: Seq<char>,
    rule_type: RuleType,
    action: FirewallAction,
) -> bool {
    &&& r.name@ == name
    &&& r.rule_type == rule_type
    &&& r.action == action
    &&& r.priority == 0
    &&& r.enabled
    &&& r.description is None
    &&& r.esme_id is None
}

impl FirewallRule {
    fn plain(name: &str, rule_type: RuleType, action: FirewallAction) -> (r: Self)
        ensures
            plain_rule(r, name@, rule_type, action),
    {
        FirewallRule {
            name: name.to_owned(),
            rule_type,
            action,
            priority: 0,
            enabled: true,
            description: None,
            esme_id: None,
        }
    }

    /// Blocks messages with a keyword.
    pub fn block_keyword(name: &str, keyword: &str) -> (r: Self)
        ensures
            r.rule_type matches RuleType::Keyword(kw) && kw@ == keyword@,
            plain_rule(
                r,
                name@,
                r.rule_type,
                FirewallAction::Block(Status::InvalidDestAddress),
            ),
    {
        FirewallRule::plain(
            name,
            RuleType::Keyword(keyword.to_owned()),
            FirewallAction::Block(Status::InvalidDestAddress),
        )
    }

    /// Blocks messages that a regular expression matches; nothing for a
    /// pattern that is not a regular expression.
    pub fn block_pattern(name: &str, pattern: &str) -> (r: Option<Self>)
        ensures
            r is Some <==> regex_valid(pattern@),
            r matches Some(x) ==> {
                &&& x.rule_type matches RuleType::Pattern(re) && regex_pattern(re) == pattern@
                &&& plain_rule(
                    x,
                    name@,
                    x.rule_type,
                    FirewallAction::Block(Status::InvalidDestAddress),
                )
            },
    {
        match compile(pattern) {
            Ok(re) => Some(
                FirewallRule::plain(
                    name,
                    RuleType::Pattern(re),
                    FirewallAction::Block(Status::InvalidDestAddress),
                ),
            ),
            Err(_) => None,
        }
    }

    /// Blocks messages of a sender.
    pub fn block_sender(name: &str, sender_id: &str) -> (r: Self)
        ensures
            r.rule_type matches RuleType::SenderId(id) && id@ == sender_id@,
            plain_rule(
                r,
                name@,
                r.rule_type,
                FirewallAction::Block(Status::InvalidSourceAddress),
            ),
    {
        FirewallRule::plain(
            name,
            RuleType::SenderId(sender_id.to_owned()),
            FirewallAction::Block(Status::InvalidSourceAddress),
        )
    }

    /// Blocks messages to destinations with a prefix.
    pub fn block_destination(name: &str, prefix: &str) -> (r: Self)
        ensures
            r.rule_type matches RuleType::DestinationPrefix(p) && p@ == prefix@,
            plain_rule(
                r,
                name@,
                r.rule_type,
                FirewallAction::Block(Status::InvalidDestAddress),
            ),
    {
        FirewallRule::plain(
            name,
            RuleType::DestinationPrefix(prefix.to_owned()),
            FirewallAction::Block(Status::InvalidDestAddress),
        )
    }

    /// Blocks messages to the destinations of a list.
    pub fn deny_destinations(name: &str, numbers: Vec<String>) -> (r: Self)
        ensures
            r.rule_type matches RuleType::DestinationList(list) && list@ == text_set(numbers@),
            plain_rule(
                r,
                name@,
                r.rule_type,
                FirewallAction::Block(Status::InvalidDestAddress),
            ),
    {
        FirewallRule::plain(
            name,
            RuleType::DestinationList(StringSet::from_vec(numbers)),
            FirewallAction::Block(Status::InvalidDestAddress),
        )
    }

    /// Blocks messages from the sources of a list.
    pub fn deny_sources(name: &str, numbers: Vec<String>) -> (r: Self)
        ensures
            r.rule_type matches RuleType::SourceList(list) && list@ == text_set(numbers@),
            plain_rule(
                r,
                name@,
                r.rule_type,
                FirewallAction::Block(Status::InvalidSourceAddress),
            ),
    {
        FirewallRule::plain(
            name,
            RuleType::SourceList(StringSet::from_vec(numbers)),
            FirewallAction::Block(Status::InvalidSourceAddress),
        )
    }

    /// A rule for the hours of a time window.
    pub fn time_restriction(name: &str, window: TimeWindow, action: FirewallAction) -> (r: Self)
        ensures
            plain_rule(r, name@, RuleType::TimeWindow(window), action),
    {
        FirewallRule::plain(name, RuleType::TimeWindow(window), action)
    }

    /// A rule for protocol parameters.
    pub fn protocol_filter(name: &str, params: ProtocolParams, action: FirewallAction) -> (r: Self)
        ensures
            plain_rule(r, name@, RuleType::Protocol(params), action),
    {
        FirewallRule::plain(name, RuleType::Protocol(params), action)
    }

    /// Sets the action.
    pub fn with_action(self, action: FirewallAction) -> (r: Self)
        ensures
            r == (FirewallRule { action, ..self }),
    {
        FirewallRule { action, ..self }
    }

    /// Sets the priority.
    pub fn with_priority(self, priority: i32) -> (r: Self)
        ensures
            r == (FirewallRule { priority, ..self }),
    {
        FirewallRule { priority, ..self }
    }

    /// Makes the rule one for a single ESME.
    pub fn for_esme(self, esme_id: &str) -> (r: Self)
        ensures
            opt_text(r.esme_id) == Some(esme_id@),
            r == (FirewallRule { esme_id: r.esme_id, ..self }),
    {
        FirewallRule { esme_id: Some(esme_id.to_owned()), ..self }
    }

    /// Sets the description.
    pub fn with_description(self, desc: &str) -> (r: Self)
        ensures
            opt_text(r.description) == Some(desc@),
            r == (FirewallRule { description: r.description, ..self }),
    {
        FirewallRule { description: Some(desc.to_owned()), ..self }
    }
}

/// The kind of a firewall event.
#[derive(Debug, Clone, Copy, PartialEq, Eq, Structural)]
pub enum FirewallEventType {
    /// Message blocked.
    Blocked,
    /// Message allowed.
    Allowed,
    /// Message logged.
    Logged,
    /// Message quarantined.
    Quarantined,
    /// Alarm raised.
    Alarm,
}

/// An entry of the event log.
#[derive(Debug)]
pub struct FirewallEvent {
    /// When it happened.
    pub timestamp: UtcTime,
    /// Kind of the event.
    pub event_type: FirewallEventType,
    /// The rule that matched, if one did.
    pub rule_name: Option<String>,
    /// Action taken.
    pub action: FirewallAction,
    /// Source address.
    pub source: String,
    /// Destination address.
    pub destination: String,
    /// Sender ID.
    pub sender_id: String,
    /// ESME or system ID.
    pub system_id: String,
    /// The first 50 characters of the message.
    pub content_preview: String,
}

/// What an event says.
#[verifier::ext_equal]
pub struct FirewallEventView {
    pub timestamp: UtcTime,
    pub event_type: FirewallEventType,
    pub rule_name: Option<Seq<char>>,
    pub action: FirewallAction,
    pub source: Seq<char>,
    pub destination: Seq<char>,
    pub sender_id: Seq<char>,
    pub system_id: Seq<char>,
    pub content_preview: Seq<char>,
}

impl View for FirewallEvent {
    type V = FirewallEventView;

    open spec fn view(&self) -> FirewallEventView {
        FirewallEventView {
            timestamp: self.timestamp,
            event_type: self.event_type,
            rule_name: opt_text(self.rule_name),
            action: self.action,
            source: self.source@,
            destination: self.destination@,
            sender_id: self.sender_id@,
            system_id: self.system_id@,
            content_preview: self.content_preview@,
        }
    }
}

impl Clone for FirewallEvent {
    fn clone(&self) -> (res: Self)
        ensures
            res == *self,
    {
        FirewallEvent {
            timestamp: self.timestamp,
            event_type: self.event_type,
            rule_name: copy_opt(&self.rule_name),
            action: self.action,
            source: self.source.clone(),
            destination: self.destination.clone(),
            sender_id: self.sender_id.clone(),
            system_id: self.system_id.clone(),
            content_preview: self.content_preview.clone(),
        }
    }
}

/// A log with one more event; the oldest leaves when the log is full.
pub open spec fn logged<T>(events: Seq<T>, max: usize, event: T) -> Seq<T> {
    if events.len() >= max && events.len() > 0 {
        events.drop_first().push(event)
    } else {
        events.push(event)
    }
}

/// The newest events first, at most `count` of those that a predicate picks.
pub open spec fn newest<T>(events: Seq<T>, pick: spec_fn(T) -> bool, count: nat) -> Seq<T>
    decreases events.len(),
{
    if events.len() == 0 || count == 0 {
        Seq::empty()
    } else if pick(events.last()) {
        seq![events.last()] + newest(events.drop_last(), pick, (count - 1) as nat)
    } else {
        newest(events.drop_last(), pick, count)
    }
}

/// The number of events that a predicate picks.
pub open spec fn tally<T>(events: Seq<T>, pick: spec_fn(T) -> bool) -> nat
    decreases events.len(),
{
    if events.len() == 0 {
        0
    } else {
        tally(events.drop_last(), pick) + if pick(events.last()) {
            1nat
        } else {
            0
        }
    }
}

/// There are no more picked events than events.
pub proof fn tally_bound<T>(events: Seq<T>, pick: spec_fn(T) -> bool)
    ensures
        tally(events, pick) <= events.len(),
    decreases events.len(),
{
    if events.len() > 0 {
        tally_bound(events.drop_last(), pick);
    }
}

/// A log of the last events.
#[derive(Debug)]
pub struct FirewallEventLog {
    events: VecDeque<FirewallEvent>,
    max_events: usize,
}

/// The picker of the events of one kind.
pub open spec fn of_type(event_type: FirewallEventType) -> spec_fn(FirewallEvent) -> bool {
    |e: FirewallEvent| e.event_type == event_type
}

/// The picker of all events.
pub open spec fn any_event() -> spec_fn(FirewallEvent) -> bool {
    |e: FirewallEvent| true
}

impl FirewallEventLog {
    /// The events, oldest first.
    pub closed spec fn events(&self) -> Seq<FirewallEvent> {
        self.events@
    }

    /// The number of events that the log keeps.
    pub closed spec fn limit(&self) -> usize {
        self.max_events
    }

    /// An empty log.
    pub fn new(max_events: usize) -> (l: Self)
        ensures
            l.events() == Seq::<FirewallEvent>::empty(),
            l.limit() == max_events,
    {
        FirewallEventLog { events: VecDeque::new(), max_events }
    }

    /// Adds an event.
    pub fn log(&mut self, event: FirewallEvent)
        ensures
            final(self).events() == logged(old(self).events(), old(self).limit(), event),
            final(self).limit() == old(self).limit(),
    {
        if self.events.len() >= self.max_events {
            let _ = self.events.pop_front();
            assert(old(self).events@.len() > 0 ==> self.events@ == old(
                self,
            ).events@.drop_first());
        }
        self.events.push_back(event);
    }

    /// The newest events, newest first.
    pub fn recent(&self, count: usize) -> (list: Vec<FirewallEvent>)
        ensures
            list@ == newest(self.events(), any_event(), count as nat),
    {
        let mut list: Vec<FirewallEvent> = Vec::new();
        let mut n: usize = self.events.len();
        let mut left: usize = count;
        assert(self.events@.take(self.events@.len() as int) == self.events@);
        while n > 0 && left > 0
            invariant
                n <= self.events@.len(),
                newest(self.events@, any_event(), count as nat) == list@ + newest(
                    self.events@.take(n as int),
                    any_event(),
                    left as nat,
                ),
            decreases n,
        {
            let ghost before = self.events@.take(n as int);
            assert(before.drop_last() == self.events@.take(n - 1));
            list.push(self.events[n - 1].clone());
            n -= 1;
            left -= 1;
            assert(newest(before, any_event(), (left + 1) as nat) == seq![before.last()] + newest(
                before.drop_last(),
                any_event(),
                left as nat,
            ));
        }
        assert(newest(self.events@.take(n as int), any_event(), left as nat) == Seq::<
            FirewallEvent,
        >::empty());
        list
    }

    /// The newest events of one kind, newest first.
    pub fn by_type(&self, event_type: FirewallEventType, count: usize) -> (list: Vec<FirewallEvent>)
        ensures
            list@ == newest(self.events(), of_type(event_type), count as nat),
    {
        let mut list: Vec<FirewallEvent> = Vec::new();
        let mut n: usize = self.events.len();
        let mut left: usize = count;
        assert(self.events@.take(self.events@.len() as int) == self.events@);
        while n > 0 && left > 0
            invariant
                n <= self.events@.len(),
                newest(self.events@, of_type(event_type), count as nat) == list@ + newest(
                    self.events@.take(n as int),
                    of_type(event_type),
                    left as nat,
                ),
            decreases n,
        {
            let ghost before = self.events@.take(n as int);
            assert(before.drop_last() == self.events@.take(n - 1));
            if self.events[n - 1].event_type == event_type {
                list.push(self.events[n - 1].clone());
                left -= 1;
                assert(newest(before, of_type(event_type), (left + 1) as nat) == seq![before.last()]
                    + newest(before.drop_last(), of_type(event_type), left as nat));
            }
            n -= 1;
        }
        assert(newest(self.events@.take(n as int), of_type(event_type), left as nat) == Seq::<
            FirewallEvent,
        >::empty());
        list
    }

    /// The number of blocked messages in the log.
    pub fn blocked_count(&self) -> (n: usize)
        ensures
            n == tally(self.events(), of_type(FirewallEventType::Blocked)),
    {
        let mut count: usize = 0;
        let mut i: usize = 0;
        while i < self.events.len()
            invariant
                i <= self.events@.len(),
                count <= i,
                count == tally(
                    self.events@.take(i as int),
                    of_type(FirewallEventType::Blocked),
                ),
            decreases self.events@.len() - i,
        {
            let ghost next = self.events@.take(i + 1);
            assert(next.drop_last() == self.events@.take(i as int));
            if self.events[i].event_type == FirewallEventType::Blocked {
                count += 1;
            }
            i += 1;
        }
        assert(self.events@.take(i as int) == self.events@);
        count
    }

    /// The numbers of events of each kind.
    pub fn stats(&self) -> (stats: FirewallEventStats)
        ensures
            stats.blocked == tally(self.events(), of_type(FirewallEventType::Blocked)),
            stats.allowed == tally(self.events(), of_type(FirewallEventType::Allowed)),
            stats.logged == tally(self.events(), of_type(FirewallEventType::Logged)),
            stats.quarantined == tally(self.events(), of_type(FirewallEventType::Quarantined)),
            stats.alarms == tally(self.events(), of_type(FirewallEventType::Alarm)),
    {
        let mut stats = FirewallEventStats {
            blocked: 0,
            allowed: 0,
            logged: 0,
            quarantined: 0,
            alarms: 0,
        };
        let mut i: usize = 0;
        while i < self.events.len()
            invariant
                i <= self.events.len(),
                stats.blocked <= i,
                stats.allowed <= i,
                stats.logged <= i,
                stats.quarantined <= i,
                stats.alarms <= i,
                stats.blocked == tally(
                    self.events@.take(i as int),
                    of_type(FirewallEventType::Blocked),
                ),
                stats.allowed == tally(
                    self.events@.take(i as int),
                    of_type(FirewallEventType::Allowed),
                ),
                stats.logged == tally(
                    self.events@.take(i as int),
                    of_type(FirewallEventType::Logged),
                ),
                stats.quarantined == tally(
                    self.events@.take(i as int),
                    of_type(FirewallEventType::Quarantined),
                ),
                stats.alarms == tally(
                    self.events@.take(i as int),
                    of_type(FirewallEventType::Alarm),
                ),
            decreases self.events.len() - i,
        {
            let ghost next = self.events@.take(i + 1);
            assert(next.drop_last() == self.events@.take(i as int));
            match self.events[i].event_type {
                FirewallEventType::Blocked => {
                    stats.blocked += 1;
                },
                FirewallEventType::Allowed => {
                    stats.allowed += 1;
                },
                FirewallEventType::Logged => {
                    stats.logged += 1;
                },
                FirewallEventType::Quarantined => {
                    stats.quarantined += 1;
                },
                FirewallEventType::Alarm => {
                    stats.alarms += 1;
                },
            }
            i += 1;
        }
        assert(self.events@.take(i as int) == self.events@);
        stats
    }
}

/// Numbers of events of each kind.
#[derive(Debug, Clone, Copy, PartialEq, Eq, Structural)]
pub struct FirewallEventStats {
    pub blocked: u64,
    pub allowed: u64,
    pub logged: u64,
    pub quarantined: u64,
    pub alarms: u64,
}

impl Default for FirewallEventStats {
    fn default() -> (s: Self)
        ensures
            s == (FirewallEventStats {
                blocked: 0,
                allowed: 0,
                logged: 0,
                quarantined: 0,
                alarms: 0,
            }),
    {
        FirewallEventStats { blocked: 0, allowed: 0, logged: 0, quarantined: 0, alarms: 0 }
    }
}

/// Firewall configuration.
#[derive(Debug)]
pub struct FirewallConfig {
    /// Whether the firewall does anything.
    pub enabled: bool,
    /// What to do with messages that no rule decides.
    pub default_action: FirewallAction,
    /// Block premium rate numbers.
    pub block_premium_rate: bool,
    /// Block international destinations.
    pub block_international: bool,
    /// Country codes that stay allowed when international ones are blocked.
    pub allowed_international: StringSet,
    /// Maximum message length in bytes.
    pub max_message_length: Option<usize>,
    /// Minimum message length in bytes.
    pub min_message_length: Option<usize>,
    /// Data coding schemes that are allowed.
    pub allowed_data_coding: Option<HashSet<u8>>,
    /// ESM classes that are denied.
    pub denied_esm_class: HashSet<u8>,
    /// Number of events that the log keeps.
    pub max_log_events: usize,
}

impl Default for FirewallConfig {
    fn default() -> (c: Self)
        ensures
            c.enabled,
            c.default_action == FirewallAction::Allow,
            c.block_premium_rate,
            !c.block_international,
            c.allowed_international@ == Set::<Seq<char>>::empty(),
            c.max_message_length is None,
            c.min_message_length is None,
            c.allowed_data_coding is None,
            c.denied_esm_class@ == Set::<u8>::empty(),
            c.max_log_events == 10_000,
    {
        FirewallConfig {
            enabled: true,
            default_action: FirewallAction::Allow,
            block_premium_rate: true,
            block_international: false,
            allowed_international: StringSet::new(),
            max_message_length: None,
            min_message_length: None,
            allowed_data_coding: None,
            denied_esm_class: HashSet::new(),
            max_log_events: 10_000,
        }
    }
}

/// Settings for one ESME.
#[derive(Debug)]
pub struct EsmeFirewallSettings {
    /// When set, the only destinations allowed.
    pub destination_allow_list: Option<StringSet>,
    /// Destinations denied.
    pub destination_deny_list: StringSet,
    /// When set, the only sources allowed.
    pub source_allow_list: Option<StringSet>,
    /// Sources denied.
    pub source_deny_list: StringSet,
    /// When set, the only sender IDs allowed.
    pub sender_allow_list: Option<StringSet>,
    /// Sender IDs denied.
    pub sender_deny_list: StringSet,
    /// Rules of the ESME, in the order in which they are checked.
    pub rules: Vec<FirewallRule>,
}

impl Default for EsmeFirewallSettings {
    fn default() -> (s: Self)
        ensures
            s.destination_allow_list is None,
            s.destination_deny_list@ == Set::<Seq<char>>::empty(),
            s.source_allow_list is None,
            s.source_deny_list@ == Set::<Seq<char>>::empty(),
            s.sender_allow_list is None,
            s.sender_deny_list@ == Set::<Seq<char>>::empty(),
            s.rules@ == Seq::<FirewallRule>::empty(),
    {
        EsmeFirewallSettings {
            destination_allow_list: None,
            destination_deny_list: StringSet::new(),
            source_allow_list: None,
            source_deny_list: StringSet::new(),
            sender_allow_list: None,
            sender_deny_list: StringSet::new(),
            rules: Vec::new(),
        }
    }
}

/// The outcome of a check.
#[derive(Debug)]
pub struct FirewallResult {
    /// Whether the message is allowed.
    pub allowed: bool,
    /// Action taken.
    pub action: FirewallAction,
    /// Name of the rule that decided.
    pub matched_rule: Option<String>,
    /// Status for a message that is not allowed.
    pub status: Option<Status>,
}

/// What an outcome says.
#[verifier::ext_equal]
pub struct FirewallResultView {
    pub allowed: bool,
    pub action: FirewallAction,
    pub matched_rule: Option<Seq<char>>,
    pub status: Option<Status>,
}

impl View for FirewallResult {
    type V = FirewallResultView;

    open spec fn view(&self) -> FirewallResultView {
        FirewallResultView {
            allowed: self.allowed,
            action: self.action,
            matched_rule: opt_text(self.matched_rule),
            status: self.status,
        }
    }
}

/// A message that is let through.
pub open spec fn allowed_view() -> FirewallResultView {
    FirewallResultView {
        allowed: true,
        action: FirewallAction::Allow,
        matched_rule: None,
        status: None,
    }
}

/// A message that is blocked under a rule name.
pub open spec fn blocked_view(rule: Seq<char>, status: Status) -> FirewallResultView {
    FirewallResultView {
        allowed: false,
        action: FirewallAction::Block(status),
        matched_rule: Some(rule),
        status: Some(status),
    }
}

impl FirewallResult {
    /// A message that is let through.
    pub fn allowed() -> (r: Self)
        ensures
            r@ == allowed_view(),
    {
        FirewallResult {
            allowed: true,
            action: FirewallAction::Allow,
            matched_rule: None,
            status: None,
        }
    }

    /// A message that is blocked under a rule name.
    pub fn blocked(rule: &str, status: Status) -> (r: Self)
        ensures
            r@ == blocked_view(rule@, status),
    {
        FirewallResult {
            allowed: false,
            action: FirewallAction::Block(status),
            matched_rule: Some(rule.to_owned()),
            status: Some(status),
        }
    }
}

/// A destination has a premium rate prefix.
pub open spec fn is_premium(destination: Seq<char>) -> bool {
    ||| "1900"@.is_prefix_of(destination)
    ||| "1976"@.is_prefix_of(destination)
    ||| "0900"@.is_prefix_of(destination)
    ||| "0909"@.is_prefix_of(destination)
    ||| "0906"@.is_prefix_of(destination)
    ||| "0908"@.is_prefix_of(destination)
    ||| "0871"@.is_prefix_of(destination)
    ||| "0872"@.is_prefix_of(destination)
    ||| "0873"@.is_prefix_of(destination)
}

/// A destination in international form, with a leading plus.
pub open spec fn is_international(destination: Seq<char>) -> bool {
    destination.len() > 0 && destination[0] == '+'
}

/// The country code that an international destination is checked by: the
/// digits after the plus, at most three.
pub open spec fn country_code(destination: Seq<char>) -> Seq<char> {
    leading_digits(destination.skip(1), 3)
}

/// What the configuration alone blocks: the rule name and the status of the
/// first limit that the message breaks.
pub open spec fn config_block(config: FirewallConfig, ctx: MessageContext) -> Option<
    (Seq<char>, Status),
> {
    let length = encode_utf8(ctx.content@).len();
    if config.max_message_length matches Some(max) && length > max {
        Some(("message_too_long"@, Status::InvalidMessageLength))
    } else if config.min_message_length matches Some(min) && length < min {
        Some(("message_too_short"@, Status::InvalidMessageLength))
    } else if config.allowed_data_coding matches Some(allowed) && ctx.protocol.data_coding matches Some(
        dcs,
    ) && !allowed@.contains(dcs) {
        Some(("data_coding_not_allowed"@, Status::InvalidDestAddress))
    } else if ctx.protocol.esm_class matches Some(esm) && config.denied_esm_class@.contains(esm) {
        Some(("esm_class_denied"@, Status::InvalidDestAddress))
    } else if config.block_premium_rate && is_premium(ctx.destination@) {
        Some(("premium_rate_blocked"@, Status::InvalidDestAddress))
    } else if config.block_international && is_international(ctx.destination@)
        && !config.allowed_international@.contains(country_code(ctx.destination@)) {
        Some(("international_blocked"@, Status::InvalidDestAddress))
    } else {
        None
    }
}

/// What the lists of an ESME block.
pub open spec fn list_block(settings: EsmeFirewallSettings, ctx: MessageContext) -> Option<
    (Seq<char>, Status),
> {
    if settings.destination_allow_list matches Some(list) && !list@.contains(ctx.destination@) {
        Some(("destination_not_in_allow_list"@, Status::InvalidDestAddress))
    } else if settings.destination_deny_list@.contains(ctx.destination@) {
        Some(("destination_in_deny_list"@, Status::InvalidDestAddress))
    } else if settings.source_allow_list matches Some(list) && !list@.contains(ctx.source@) {
        Some(("source_not_in_allow_list"@, Status::InvalidSourceAddress))
    } else if settings.source_deny_list@.contains(ctx.source@) {
        Some(("source_in_deny_list"@, Status::InvalidSourceAddress))
    } else if settings.sender_allow_list matches Some(list) && !list@.contains(ctx.sender_id@) {
        Some(("sender_not_in_allow_list"@, Status::InvalidSourceAddress))
    } else if settings.sender_deny_list@.contains(ctx.sender_id@) {
        Some(("sender_in_deny_list"@, Status::InvalidSourceAddress))
    } else {
        None
    }
}

/// A rule is in force for a message: it is enabled, where `scoped` it is for
/// the submitting ESME, and it matches.
pub open spec fn rule_in_force(
    rule: FirewallRule,
    scoped: bool,
    ctx: MessageContext,
    now: UtcTime,
) -> bool {
    &&& rule.enabled
    &&& scoped ==> (rule.esme_id matches Some(id) ==> id@ == ctx.system_id@)
    &&& rule_matches(rule.rule_type, ctx, now)
}

/// What a matching rule decides; a log or alarm rule decides nothing.
pub open spec fn rule_decision(rule: FirewallRule) -> Option<FirewallResultView> {
    match rule.action {
        FirewallAction::Allow => Some(allowed_view()),
        FirewallAction::Block(status) => Some(blocked_view(rule.name@, status)),
        FirewallAction::Log => None,
        FirewallAction::Alarm => None,
        FirewallAction::Quarantine => Some(
            FirewallResultView {
                allowed: false,
                action: FirewallAction::Quarantine,
                matched_rule: Some(rule.name@),
                status: Some(Status::SystemError),
            },
        ),
        FirewallAction::Modify => Some(
            FirewallResultView {
                allowed: true,
                action: FirewallAction::Modify,
                matched_rule: Some(rule.name@),
                status: None,
            },
        ),
    }
}

/// The event of a message.
pub open spec fn event_view(
    ctx: MessageContext,
    now: UtcTime,
    event_type: FirewallEventType,
    rule_name: Option<Seq<char>>,
    action: FirewallAction,
) -> FirewallEventView {
    FirewallEventView {
        timestamp: now,
        event_type,
        rule_name,
        action,
        source: ctx.source@,
        destination: ctx.destination@,
        sender_id: ctx.sender_id@,
        system_id: ctx.system_id@,
        content_preview: first_chars(ctx.content@, 50),
    }
}

/// The alarm that a rule raises.
pub open spec fn alarm_view(
    rule: FirewallRule,
    ctx: MessageContext,
    now: UtcTime,
) -> FirewallEventView {
    event_view(ctx, now, FirewallEventType::Alarm, Some(rule.name@), FirewallAction::Alarm)
}

/// What a list of rules makes of a message: the alarms raised on the way to
/// the first rule that decides, and what it decides.
pub open spec fn rules_outcome(
    rules: Seq<FirewallRule>,
    scoped: bool,
    ctx: MessageContext,
    now: UtcTime,
) -> (Seq<FirewallEventView>, Option<FirewallResultView>)
    decreases rules.len(),
{
    if rules.len() == 0 {
        (Seq::empty(), None)
    } else {
        let rule = rules.first();
        let rest = rules_outcome(rules.drop_first(), scoped, ctx, now);
        if !rule_in_force(rule, scoped, ctx, now) {
            rest
        } else if rule.action == FirewallAction::Alarm {
            (seq![alarm_view(rule, ctx, now)] + rest.0, rest.1)
        } else if rule.action == FirewallAction::Log {
            rest
        } else {
            (Seq::empty(), rule_decision(rule))
        }
    }
}

/// What is done with a message that nothing decided.
pub open spec fn default_view(action: FirewallAction) -> FirewallResultView {
    match action {
        FirewallAction::Block(status) => blocked_view("default_block"@, status),
        _ => allowed_view(),
    }
}

/// What the settings of an ESME make of a message.
pub open spec fn esme_outcome(
    settings: Option<EsmeFirewallSettings>,
    ctx: MessageContext,
    now: UtcTime,
) -> (Seq<FirewallEventView>, Option<FirewallResultView>) {
    match settings {
        None => (Seq::empty(), None),
        Some(s) => match list_block(s, ctx) {
            Some(b) => (Seq::empty(), Some(blocked_view(b.0, b.1))),
            None => rules_outcome(s.rules@, false, ctx, now),
        },
    }
}

/// What an enabled firewall makes of a message: the alarms raised on the way,
/// and the outcome.
pub open spec fn firewall_outcome(
    config: FirewallConfig,
    settings: Option<EsmeFirewallSettings>,
    rules: Seq<FirewallRule>,
    ctx: MessageContext,
    now: UtcTime,
) -> (Seq<FirewallEventView>, FirewallResultView) {
    match config_block(config, ctx) {
        Some(b) => (Seq::empty(), blocked_view(b.0, b.1)),
        None => {
            let esme = esme_outcome(settings, ctx, now);
            match esme.1 {
                Some(r) => (esme.0, r),
                None => {
                    let global = rules_outcome(rules, true, ctx, now);
                    match global.1 {
                        Some(r) => (esme.0 + global.0, r),
                        None => (esme.0 + global.0, default_view(config.default_action)),
                    }
                },
            }
        },
    }
}

/// The kind of the event that an outcome is logged under.
pub open spec fn outcome_event_type(r: FirewallResultView) -> FirewallEventType {
    if r.allowed {
        if r.action == FirewallAction::Log {
            FirewallEventType::Logged
        } else {
            FirewallEventType::Allowed
        }
    } else if r.action == FirewallAction::Quarantine {
        FirewallEventType::Quarantined
    } else {
        FirewallEventType::Blocked
    }
}

/// The events of a check, in the order in which they are logged: the alarms,
/// then the outcome.
pub open spec fn check_events(
    outcome: (Seq<FirewallEventView>, FirewallResultView),
    ctx: MessageContext,
    now: UtcTime,
) -> Seq<FirewallEventView> {
    outcome.0.push(
        event_view(
            ctx,
            now,
            outcome_event_type(outcome.1),
            outcome.1.matched_rule,
            outcome.1.action,
        ),
    )
}

/// A log with several more events.
pub open spec fn logged_all<T>(events: Seq<T>, max: usize, more: Seq<T>) -> Seq<T>
    decreases more.len(),
{
    if more.len() == 0 {
        events
    } else {
        logged(logged_all(events, max, more.drop_last()), max, more.last())
    }
}

/// What a list of events says.
pub open spec fn event_views(events: Seq<FirewallEvent>) -> Seq<FirewallEventView> {
    events.map_values(|e: FirewallEvent| e@)
}

/// The position of a new rule of a priority among rules in order of priority:
/// after all rules whose priority is not lower.
pub open spec fn rule_slot(rules: Seq<FirewallRule>, priority: i32) -> nat
    decreases rules.len(),
{
    if rules.len() == 0 || rules.last().priority >= priority {
        rules.len()
    } else {
        rule_slot(rules.drop_last(), priority)
    }
}

/// Rules with a new rule in its place.
pub open spec fn rule_added(rules: Seq<FirewallRule>, rule: FirewallRule) -> Seq<FirewallRule> {
    rules.insert(rule_slot(rules, rule.priority) as int, rule)
}

/// Rules with several new rules in their places.
pub open spec fn rules_added(rules: Seq<FirewallRule>, more: Seq<FirewallRule>) -> Seq<
    FirewallRule,
>
    decreases more.len(),
{
    if more.len() == 0 {
        rules
    } else {
        rule_added(rules_added(rules, more.drop_last()), more.last())
    }
}

/// Rules in order of falling priority.
pub open spec fn by_priority(rules: Seq<FirewallRule>) -> bool {
    forall|i: int, j: int| 0 <= i < j < rules.len() ==> rules[i].priority >= rules[j].priority
}

/// An SMS firewall.
#[derive(Debug)]
pub struct Firewall {
    config: FirewallConfig,
    rules: Vec<FirewallRule>,
    esme_settings: StringMap<EsmeFirewallSettings>,
    event_log: FirewallEventLog,
}

impl Firewall {
    /// The configuration.
    pub closed spec fn config(&self) -> FirewallConfig {
        self.config
    }

    /// The global rules, in the order in which they are checked.
    pub closed spec fn rules(&self) -> Seq<FirewallRule> {
        self.rules@
    }

    /// The settings of each ESME that has any.
    pub closed spec fn settings(&self) -> Map<Seq<char>, EsmeFirewallSettings> {
        self.esme_settings@
    }

    /// The event log.
    pub closed spec fn log(&self) -> FirewallEventLog {
        self.event_log
    }

    /// The settings of one ESME, if it has any.
    pub open spec fn settings_of(&self, id: Seq<char>) -> Option<EsmeFirewallSettings> {
        if self.settings().dom().contains(id) {
            Some(self.settings()[id])
        } else {
            None
        }
    }

    /// What the firewall makes of a message, if it is enabled.
    pub open spec fn outcome(&self, ctx: MessageContext, now: UtcTime) -> (
        Seq<FirewallEventView>,
        FirewallResultView,
    ) {
        firewall_outcome(
            self.config(),
            self.settings_of(ctx.system_id@),
            self.rules(),
            ctx,
            now,
        )
    }

    /// Nothing but the event log differs.
    pub open spec fn same_but_log(&self, other: Firewall) -> bool {
        &&& self.config() == other.config()
        &&& self.rules() == other.rules()
        &&& self.settings() == other.settings()
        &&& self.log().limit() == other.log().limit()
    }

    /// A check at a moment leads from one firewall to another with a result.
    pub open spec fn checked(
        &self,
        after: Firewall,
        ctx: MessageContext,
        now: UtcTime,
        result: FirewallResultView,
    ) -> bool {
        &&& after.same_but_log(*self)
        &&& if self.config().enabled {
            &&& result == self.outcome(ctx, now).1
            &&& event_views(after.log().events()) == logged_all(
                event_views(self.log().events()),
                self.log().limit(),
                check_events(self.outcome(ctx, now), ctx, now),
            )
        } else {
            &&& result == allowed_view()
            &&& after.log() == self.log()
        }
    }

    /// A firewall without rules.
    pub fn new(config: FirewallConfig) -> (f: Self)
        ensures
            f.config() == config,
            f.rules() == Seq::<FirewallRule>::empty(),
            f.settings() == Map::<Seq<char>, EsmeFirewallSettings>::empty(),
            f.log().events() == Seq::<FirewallEvent>::empty(),
            f.log().limit() == config.max_log_events,
    {
        let event_log = FirewallEventLog::new(config.max_log_events);
        Firewall { config, rules: Vec::new(), esme_settings: StringMap::new(), event_log }
    }

    /// The event log.
    pub fn event_log(&self) -> (l: &FirewallEventLog)
        ensures
            *l == self.log(),
    {
        &self.event_log
    }

    /// Adds a global rule, after the rules whose priority is not lower.
    pub fn add_rule(&mut self, rule: FirewallRule)
        ensures
            final(self).rules() == rule_added(old(self).rules(), rule),
            by_priority(old(self).rules()) ==> by_priority(final(self).rules()),
            final(self).config() == old(self).config(),
            final(self).settings() == old(self).settings(),
            final(self).log() == old(self).log(),
    {
        let mut at: usize = self.rules.len();
        assert(self.rules@.take(at as int) == self.rules@);
        while at > 0 && self.rules[at - 1].priority < rule.priority
            invariant
                at <= self.rules@.len(),
                *self == *old(self),
                rule_slot(self.rules@.take(at as int), rule.priority) == rule_slot(
                    self.rules@,
                    rule.priority,
                ),
            decreases at,
        {
            assert(self.rules@.take(at as int).drop_last() == self.rules@.take(at - 1));
            at -= 1;
        }
        proof {
            rule_slot_sorted(self.rules@, rule);
        }
        self.rules.insert(at, rule);
    }

    /// Adds global rules.
    pub fn with_rules(self, rules: Vec<FirewallRule>) -> (f: Self)
        ensures
            f.rules() == rules_added(self.rules(), rules@),
            f.config() == self.config(),
            f.settings() == self.settings(),
            f.log() == self.log(),
    {
        let mut f = self;
        let ghost all = rules@;
        for rule in it: rules
            invariant
                it.seq() == all,
                f.rules() == rules_added(self.rules(), all.take(it.index())),
                f.config() == self.config(),
                f.settings() == self.settings(),
                f.log() == self.log(),
        {
            assert(all.take(it.index() + 1).drop_last() == all.take(it.index()));
            f.add_rule(rule);
        }
        assert(all.take(all.len() as int) == all);
        f
    }

    /// Sets the settings of an ESME.
    pub fn set_esme_settings(&mut self, esme_id: &str, settings: EsmeFirewallSettings)
        ensures
            final(self).settings() == old(self).settings().insert(esme_id@, settings),
            final(self).config() == old(self).config(),
            final(self).rules() == old(self).rules(),
            final(self).log() == old(self).log(),
    {
        self.esme_settings.insert(esme_id.to_owned(), settings);
    }

    /// The settings of an ESME.
    pub fn get_esme_settings(&self, esme_id: &str) -> (s: Option<&EsmeFirewallSettings>)
        ensures
            match s {
                Some(x) => self.settings_of(esme_id@) == Some(*x),
                None => self.settings_of(esme_id@) is None,
            },
    {
        self.esme_settings.get(esme_id)
    }

    /// Checks a message at a moment, and logs the events.
    pub fn check_at(&mut self, ctx: &MessageContext, now: &UtcTime) -> (r: FirewallResult)
        ensures
            old(self).checked(*final(self), *ctx, *now, r@),
    {
        if !self.config.enabled {
            return FirewallResult::allowed();
        }
        let (alarms, result) = self.decide(ctx, now);
        let ghost start = event_views(self.event_log.events());
        let ghost views = event_views(alarms@);
        let mut i: usize = 0;
        while i < alarms.len()
            invariant
                i <= alarms@.len(),
                views == event_views(alarms@),
                start == event_views(old(self).log().events()),
                self.same_but_log(*old(self)),
                event_views(self.event_log.events()) == logged_all(
                    start,
                    self.event_log.limit(),
                    views.take(i as int),
                ),
            decreases alarms@.len() - i,
        {
            let ghost before = self.event_log.events();
            self.event_log.log(alarms[i].clone());
            proof {
                assert(views.take(i + 1).drop_last() == views.take(i as int));
                logged_views(before, self.event_log.limit(), alarms@[i as int]);
            }
            i += 1;
        }
        assert(views.take(views.len() as int) == views);
        let event = outcome_event(ctx, now, &result);
        let ghost before = self.event_log.events();
        let ghost last = event;
        self.event_log.log(event);
        proof {
            logged_views(before, self.event_log.limit(), last);
            let all = check_events(old(self).outcome(*ctx, *now), *ctx, *now);
            assert(all.drop_last() == views);
        }
        result
    }

    /// Checks a message now, and logs the events.
    pub fn check(&mut self, ctx: &MessageContext) -> (r: FirewallResult)
        ensures
            exists|now: UtcTime| #[trigger] old(self).checked(*final(self), *ctx, now, r@),
    {
        let now = utc_now();
        self.check_at(ctx, &now)
    }

    fn decide(&self, ctx: &MessageContext, now: &UtcTime) -> (r: (
        Vec<FirewallEvent>,
        FirewallResult,
    ))
        ensures
            event_views(r.0@) == self.outcome(*ctx, *now).0,
            r.1@ == self.outcome(*ctx, *now).1,
    {
        let mut alarms: Vec<FirewallEvent> = Vec::new();
        assert(event_views(alarms@) == Seq::<FirewallEventView>::empty());
        if let Some(r) = block_by_config(&self.config, ctx) {
            return (alarms, r);
        }
        if let Some(settings) = self.get_esme_settings(ctx.system_id.as_str()) {
            if let Some(r) = block_by_list(settings, ctx) {
                return (alarms, r);
            }
            if let Some(r) = apply_rules(&settings.rules, false, ctx, now, &mut alarms) {
                return (alarms, r);
            }
        }
        if let Some(r) = apply_rules(&self.rules, true, ctx, now, &mut alarms) {
            return (alarms, r);
        }
        let result = match self.config.default_action {
            FirewallAction::Block(status) => FirewallResult::blocked("default_block", status),
            _ => FirewallResult::allowed(),
        };
        (alarms, result)
    }
}

proof fn rule_slot_bound(rules: Seq<FirewallRule>, priority: i32)
    ensures
        rule_slot(rules, priority) <= rules.len(),
        forall|i: int|
            rule_slot(rules, priority) <= i < rules.len() ==> rules[i].priority < priority,
        rule_slot(rules, priority) > 0 ==> rules[rule_slot(rules, priority) - 1].priority
            >= priority,
    decreases rules.len(),
{
    if rules.len() == 0 || rules.last().priority >= priority {
    } else {
        let init = rules.drop_last();
        rule_slot_bound(init, priority);
        assert forall|i: int| rule_slot(rules, priority) <= i < rules.len() implies rules[i].priority
            < priority by {
            if i < init.len() {
                assert(init[i] == rules[i]);
            }
        }
    }
}

proof fn rule_slot_sorted(rules: Seq<FirewallRule>, rule: FirewallRule)
    ensures
        rule_slot(rules, rule.priority) <= rules.len(),
        by_priority(rules) ==> by_priority(rule_added(rules, rule)),
{
    rule_slot_bound(rules, rule.priority);
    if by_priority(rules) {
        let at = rule_slot(rules, rule.priority) as int;
        let all = rule_added(rules, rule);
        assert forall|i: int, j: int| 0 <= i < j < all.len() implies all[i].priority
            >= all[j].priority by {
            if i == at {
                assert(all[j] == rules[j - 1]);
            } else if j == at {
                assert(all[i] == rules[i]);
                if i < at - 1 {
                    assert(rules[i].priority >= rules[at - 1].priority);
                }
            } else {
                let a = if i < at { i } else { i - 1 };
                let b = if j < at { j } else { j - 1 };
                assert(all[i] == rules[a]);
                assert(all[j] == rules[b]);
            }
        }
    }
}

proof fn logged_views(events: Seq<FirewallEvent>, max: usize, event: FirewallEvent)
    ensures
        event_views(logged(events, max, event)) == logged(event_views(events), max, event@),
{
    assert(event_views(logged(events, max, event)) =~= logged(event_views(events), max, event@));
}

fn outcome_event(ctx: &MessageContext, now: &UtcTime, result: &FirewallResult) -> (e:
    FirewallEvent)
    ensures
        e@ == event_view(
            *ctx,
            *now,
            outcome_event_type(result@),
            result@.matched_rule,
            result@.action,
        ),
{
    let event_type = if result.allowed {
        match result.action {
            FirewallAction::Log => FirewallEventType::Logged,
            _ => FirewallEventType::Allowed,
        }
    } else {
        match result.action {
            FirewallAction::Quarantine => FirewallEventType::Quarantined,
            _ => FirewallEventType::Blocked,
        }
    };
    FirewallEvent {
        timestamp: *now,
        event_type,
        rule_name: copy_opt(&result.matched_rule),
        action: result.action,
        source: ctx.source.clone(),
        destination: ctx.destination.clone(),
        sender_id: ctx.sender_id.clone(),
        system_id: ctx.system_id.clone(),
        content_preview: take_chars(ctx.content.as_str(), 50),
    }
}

fn block_by_config(config: &FirewallConfig, ctx: &MessageContext) -> (r: Option<FirewallResult>)
    ensures
        match config_block(*config, *ctx) {
            Some(b) => r matches Some(x) && x@ == blocked_view(b.0, b.1),
            None => r is None,
        },
{
    let length: usize = ctx.content.as_str().as_bytes().len();
    if let Some(max) = config.max_message_length {
        if length > max {
            return Some(FirewallResult::blocked("message_too_long", Status::InvalidMessageLength));
        }
    }
    if let Some(min) = config.min_message_length {
        if length < min {
            return Some(FirewallResult::blocked("message_too_short", Status::InvalidMessageLength));
        }
    }
    if let Some(allowed) = &config.allowed_data_coding {
        if let Some(dcs) = ctx.protocol.data_coding {
            if !allowed.contains(&dcs) {
                return Some(
                    FirewallResult::blocked("data_coding_not_allowed", Status::InvalidDestAddress),
                );
            }
        }
    }
    if let Some(esm) = ctx.protocol.esm_class {
        if config.denied_esm_class.contains(&esm) {
            return Some(FirewallResult::blocked("esm_class_denied", Status::InvalidDestAddress));
        }
    }
    if config.block_premium_rate && has_premium_prefix(ctx.destination.as_str()) {
        return Some(FirewallResult::blocked("premium_rate_blocked", Status::InvalidDestAddress));
    }
    if config.block_international {
        let chars = to_chars(ctx.destination.as_str());
        if chars.len() > 0 && chars[0] == '+' {
            let code = take_digits(&chars, 1, 3);
            if !config.allowed_international.contains(code.as_str()) {
                return Some(
                    FirewallResult::blocked("international_blocked", Status::InvalidDestAddress),
                );
            }
        }
    }
    None
}

fn has_premium_prefix(destination: &str) -> (b: bool)
    ensures
        b == is_premium(destination@),
{
    starts_with(destination, "1900") || starts_with(destination, "1976") || starts_with(
        destination,
        "0900",
    ) || starts_with(destination, "0909") || starts_with(destination, "0906") || starts_with(
        destination,
        "0908",
    ) || starts_with(destination, "0871") || starts_with(destination, "0872") || starts_with(
        destination,
        "0873",
    )
}

fn block_by_list(settings: &EsmeFirewallSettings, ctx: &MessageContext) -> (r: Option<
    FirewallResult,
>)
    ensures
        match list_block(*settings, *ctx) {
            Some(b) => r matches Some(x) && x@ == blocked_view(b.0, b.1),
            None => r is None,
        },
{
    if let Some(list) = &settings.destination_allow_list {
        if !list.contains(ctx.destination.as_str()) {
            return Some(
                FirewallResult::blocked(
                    "destination_not_in_allow_list",
                    Status::InvalidDestAddress,
                ),
            );
        }
    }
    if settings.destination_deny_list.contains(ctx.destination.as_str()) {
        return Some(FirewallResult::blocked("destination_in_deny_list", Status::InvalidDestAddress));
    }
    if let Some(list) = &settings.source_allow_list {
        if !list.contains(ctx.source.as_str()) {
            return Some(
                FirewallResult::blocked("source_not_in_allow_list", Status::InvalidSourceAddress),
            );
        }
    }
    if settings.source_deny_list.contains(ctx.source.as_str()) {
        return Some(FirewallResult::blocked("source_in_deny_list", Status::InvalidSourceAddress));
    }
    if let Some(list) = &settings.sender_allow_list {
        if !list.contains(ctx.sender_id.as_str()) {
            return Some(
                FirewallResult::blocked("sender_not_in_allow_list", Status::InvalidSourceAddress),
            );
        }
    }
    if settings.sender_deny_list.contains(ctx.sender_id.as_str()) {
        return Some(FirewallResult::blocked("sender_in_deny_list", Status::InvalidSourceAddress));
    }
    None
}

fn apply_rules(
    rules: &Vec<FirewallRule>,
    scoped: bool,
    ctx: &MessageContext,
    now: &UtcTime,
    alarms: &mut Vec<FirewallEvent>,
) -> (r: Option<FirewallResult>)
    ensures
        event_views(final(alarms)@) == event_views(old(alarms)@) + rules_outcome(
            rules@,
            scoped,
            *ctx,
            *now,
        ).0,
        match rules_outcome(rules@, scoped, *ctx, *now).1 {
            Some(x) => r matches Some(y) && y@ == x,
            None => r is None,
        },
{
    let mut i: usize = 0;
    assert(rules@.skip(0) == rules@);
    while i < rules.len()
        invariant
            i <= rules@.len(),
            event_views(old(alarms)@) + rules_outcome(rules@, scoped, *ctx, *now).0 == event_views(
                alarms@,
            ) + rules_outcome(rules@.skip(i as int), scoped, *ctx, *now).0,
            rules_outcome(rules@, scoped, *ctx, *now).1 == rules_outcome(
                rules@.skip(i as int),
                scoped,
                *ctx,
                *now,
            ).1,
        decreases rules@.len() - i,
    {
        let rule = &rules[i];
        assert(rules@.skip(i as int).drop_first() == rules@.skip(i + 1));
        assert(rules@.skip(i as int).first() == *rule);
        let in_scope = !scoped || match &rule.esme_id {
            Some(id) => same(id.as_str(), ctx.system_id.as_str()),
            None => true,
        };
        if rule.enabled && in_scope && rule.rule_type.matches_at(ctx, now) {
            match rule.action {
                FirewallAction::Alarm => {
                    let event = FirewallEvent {
                        timestamp: *now,
                        event_type: FirewallEventType::Alarm,
                        rule_name: Some(rule.name.clone()),
                        action: rule.action,
                        source: ctx.source.clone(),
                        destination: ctx.destination.clone(),
                        sender_id: ctx.sender_id.clone(),
                        system_id: ctx.system_id.clone(),
                        content_preview: take_chars(ctx.content.as_str(), 50),
                    };
                    let ghost before = event_views(alarms@);
                    let ghost rest = rules_outcome(rules@.skip(i + 1), scoped, *ctx, *now).0;
                    alarms.push(event);
                    assert(event_views(alarms@) =~= before.push(alarm_view(*rule, *ctx, *now)));
                    assert(before + (seq![alarm_view(*rule, *ctx, *now)] + rest) =~= before.push(
                        alarm_view(*rule, *ctx, *now),
                    ) + rest);
                },
                FirewallAction::Log => {},
                _ => {
                    return apply_decision(rule);
                },
            }
        }
        i += 1;
    }
    None
}

fn apply_decision(rule: &FirewallRule) -> (r: Option<FirewallResult>)
    ensures
        match rule_decision(*rule) {
            Some(x) => r matches Some(y) && y@ == x,
            None => r is None,
        },
{
    match rule.action {
        FirewallAction::Allow => Some(FirewallResult::allowed()),
        FirewallAction::Block(status) => Some(
            FirewallResult {
                allowed: false,
                action: rule.action,
                matched_rule: Some(rule.name.clone()),
                status: Some(status),
            },
        ),
        FirewallAction::Quarantine => Some(
            FirewallResult {
                allowed: false,
                action: rule.action,
                matched_rule: Some(rule.name.clone()),
                status: Some(Status::SystemError),
            },
        ),
        FirewallAction::Modify => Some(
            FirewallResult {
                allowed: true,
                action: rule.action,
                matched_rule: Some(rule.name.clone()),
                status: None,
            },
        ),
        FirewallAction::Log => None,
        FirewallAction::Alarm => None,
    }
}

/// The context of a submitted message: the sender is its source address, and
/// the submitting client is not known.
pub open spec fn submit_context(sm: SubmitSm, ctx: MessageContext) -> bool {
    &&& ctx.content@ == utf8_lossy(sm.short_message@)
    &&& ctx.sender_id@ == sm.source_addr@
    &&& ctx.destination@ == sm.dest_addr@
    &&& ctx.source@ == sm.source_addr@
    &&& ctx.system_id@ == Seq::<char>::empty()
    &&& ctx.protocol == ProtocolParams {
        esm_class: Some(sm.esm_class),
        protocol_id: Some(sm.protocol_id),
        data_coding: Some(sm.data_coding),
        source_addr_ton: Some(sm.source_addr_ton),
        source_addr_npi: Some(sm.source_addr_npi),
        dest_addr_ton: Some(sm.dest_addr_ton),
        dest_addr_npi: Some(sm.dest_addr_npi),
    }
}

impl MessageContext {
    /// The context of a submitted message.
    pub fn from_submit(sm: &SubmitSm) -> (ctx: Self)
        ensures
            submit_context(*sm, ctx),
    {
        MessageContext {
            content: decode_lossy(&sm.short_message),
            sender_id: sm.source_addr.clone(),
            destination: sm.dest_addr.clone(),
            source: sm.source_addr.clone(),
            system_id: String::new(),
            protocol: ProtocolParams {
                esm_class: Some(sm.esm_class),
                protocol_id: Some(sm.protocol_id),
                data_coding: Some(sm.data_coding),
                source_addr_ton: Some(sm.source_addr_ton),
                source_addr_npi: Some(sm.source_addr_npi),
                dest_addr_ton: Some(sm.dest_addr_ton),
                dest_addr_npi: Some(sm.dest_addr_npi),
            },
        }
    }
}

/// What a request is answered, given the outcome of its check.
pub open spec fn answered(
    req: SmppRequest,
    result: FirewallResultView,
    response: SmppResponse,
) -> bool {
    if result.allowed {
        response == SmppResponse::Continue(req)
    } else {
        response matches SmppResponse::Reject { sequence, status, reason } && sequence
            == req.sequence && status == (match result.status {
            Some(s) => s,
            None => Status::InvalidDestAddress,
        }) && opt_text(reason) == result.matched_rule
    }
}

/// A filter that passes on what a firewall allows and rejects the rest.
#[derive(Debug)]
pub struct FirewallFilter {
    /// The firewall.
    pub firewall: Firewall,
}

impl FirewallFilter {
    /// Answers a request, given the outcome of its check.
    pub fn respond(req: SmppRequest, result: FirewallResult) -> (r: SmppResponse)
        ensures
            answered(req, result@, r),
    {
        if result.allowed {
            SmppResponse::Continue(req)
        } else {
            let status = match result.status {
                Some(s) => s,
                None => Status::InvalidDestAddress,
            };
            SmppResponse::Reject { sequence: req.sequence, status, reason: result.matched_rule }
        }
    }

    /// Checks a submitted message at a moment; other requests are passed on
    /// unchecked.
    pub fn call_at(&mut self, req: SmppRequest, now: &UtcTime) -> (r: SmppResponse)
        ensures
            match req.pdu {
                Pdu::SubmitSm(sm) => exists|ctx: MessageContext, result: FirewallResultView|
                    submit_context(sm, ctx) && #[trigger] old(self).firewall.checked(
                        final(self).firewall,
                        ctx,
                        *now,
                        result,
                    ) && answered(req, result, r),
                _ => r == SmppResponse::Continue(req) && *final(self) == *old(self),
            },
    {
        let ctx = match &req.pdu {
            Pdu::SubmitSm(sm) => MessageContext::from_submit(sm),
            _ => return SmppResponse::Continue(req),
        };
        let result = self.firewall.check_at(&ctx, now);
        assert(old(self).firewall.checked(self.firewall, ctx, *now, result@));
        FirewallFilter::respond(req, result)
    }

    /// Checks a submitted message now; other requests are passed on unchecked.
    pub fn call(&mut self, req: SmppRequest) -> (r: SmppResponse)
        ensures
            match req.pdu {
                Pdu::SubmitSm(sm) => exists|
                    now: UtcTime,
                    ctx: MessageContext,
                    result: FirewallResultView,
                |
                    submit_context(sm, ctx) && #[trigger] old(self).firewall.checked(
                        final(self).firewall,
                        ctx,
                        now,
                        result,
                    ) && answered(req, result, r),
                _ => r == SmppResponse::Continue(req) && *final(self) == *old(self),
            },
    {
        let now = utc_now();
        self.call_at(req, &now)
    }
}

/// The first rule in force that decides anything decides for the whole list,
/// whatever comes after it.
pub proof fn first_rule_decides(
    rules: Seq<FirewallRule>,
    scoped: bool,
    ctx: MessageContext,
    now: UtcTime,
    k: int,
)
    requires
        0 <= k < rules.len(),
        rule_in_force(rules[k], scoped, ctx, now),
        rule_decision(rules[k]) is Some,
        forall|i: int|
            0 <= i < k && #[trigger] rule_in_force(rules[i], scoped, ctx, now) ==> rule_decision(
                rules[i],
            ) is None,
    ensures
        rules_outcome(rules, scoped, ctx, now).1 == rule_decision(rules[k]),
    decreases k,
{
    if k > 0 {
        let rest = rules.drop_first();
        assert(rest[k - 1] == rules[k]);
        assert forall|i: int|
            0 <= i < k - 1 && #[trigger] rule_in_force(rest[i], scoped, ctx, now) implies rule_decision(
            rest[i],
        ) is None by {
            assert(rest[i] == rules[i + 1]);
            assert(rule_in_force(rules[i + 1], scoped, ctx, now));
        }
        first_rule_decides(rest, scoped, ctx, now, k - 1);
        assert(rule_in_force(rules[0], scoped, ctx, now) ==> rule_decision(rules[0]) is None);
    }
}

/// A list of rules decides nothing exactly when none of them is in force and
/// decides.
pub proof fn no_rule_decides(
    rules: Seq<FirewallRule>,
    scoped: bool,
    ctx: MessageContext,
    now: UtcTime,
)
    ensures
        rules_outcome(rules, scoped, ctx, now).1 is None <==> forall|i: int|
            0 <= i < rules.len() && #[trigger] rule_in_force(rules[i], scoped, ctx, now)
                ==> rule_decision(rules[i]) is None,
    decreases rules.len(),
{
    if rules.len() > 0 {
        let rest = rules.drop_first();
        no_rule_decides(rest, scoped, ctx, now);
        if rules_outcome(rules, scoped, ctx, now).1 is None {
            assert forall|i: int|
                0 <= i < rules.len() && #[trigger] rule_in_force(
                    rules[i],
                    scoped,
                    ctx,
                    now,
                ) implies rule_decision(rules[i]) is None by {
                if i > 0 {
                    assert(rest[i - 1] == rules[i]);
                    assert(rule_in_force(rest[i - 1], scoped, ctx, now));
                }
            }
        } else {
            if rule_in_force(rules[0], scoped, ctx, now) && rule_decision(rules[0]) is Some {
            } else {
                assert(rules_outcome(rest, scoped, ctx, now).1 is Some);
                let i = choose|i: int|
                    0 <= i < rest.len() && #[trigger] rule_in_force(rest[i], scoped, ctx, now)
                        && rule_decision(rest[i]) is Some;
                assert(rule_in_force(rules[i + 1], scoped, ctx, now));
            }
        }
    }
}

/// A message that breaks a limit of the configuration is blocked, whatever
/// rules and settings there are.
pub proof fn limits_come_first(
    config: FirewallConfig,
    settings: Option<EsmeFirewallSettings>,
    rules: Seq<FirewallRule>,
    ctx: MessageContext,
    now: UtcTime,
)
    requires
        config_block(config, ctx) is Some,
    ensures
        !firewall_outcome(config, settings, rules, ctx, now).1.allowed,
{
}

/// A destination that an ESME has on its deny list, or that its allow list
/// lacks, is blocked, whatever rules there are.
pub proof fn destination_lists_block(
    config: FirewallConfig,
    settings: EsmeFirewallSettings,
    rules: Seq<FirewallRule>,
    ctx: MessageContext,
    now: UtcTime,
)
    requires
        settings.destination_deny_list@.contains(ctx.destination@) || (
        settings.destination_allow_list matches Some(list) && !list@.contains(ctx.destination@)),
    ensures
        !firewall_outcome(config, Some(settings), rules, ctx, now).1.allowed,
{
}

/// The settings of one ESME do not touch the messages of another.
pub proof fn settings_are_separate(
    f: Firewall,
    g: Firewall,
    esme_id: Seq<char>,
    settings: EsmeFirewallSettings,
    ctx: MessageContext,
    now: UtcTime,
)
    requires
        g.settings() == f.settings().insert(esme_id, settings),
        g.config() == f.config(),
        g.rules() == f.rules(),
        ctx.system_id@ != esme_id,
    ensures
        g.outcome(ctx, now) == f.outcome(ctx, now),
{
    assert(g.settings_of(ctx.system_id@) == f.settings_of(ctx.system_id@));
}

/// However rules are added to a firewall without rules, they are kept in
/// order of falling priority.
pub proof fn rules_stay_in_order(rules: Seq<FirewallRule>, more: Seq<FirewallRule>)
    requires
        by_priority(rules),
    ensures
        by_priority(rules_added(rules, more)),
    decreases more.len(),
{
    if more.len() > 0 {
        rules_stay_in_order(rules, more.drop_last());
        rule_slot_sorted(rules_added(rules, more.drop_last()), more.last());
    }
}

/// A new rule goes behind all rules of its own or a higher priority, and
/// before all rules of a lower one; the other rules keep their order.
pub proof fn new_rule_goes_behind_its_equals(rules: Seq<FirewallRule>, rule: FirewallRule)
    requires
        by_priority(rules),
    ensures
        ({
            let at = rule_slot(rules, rule.priority) as int;
            let all = rule_added(rules, rule);
            &&& all.len() == rules.len() + 1
            &&& all[at] == rule
            &&& all.remove(at) == rules
            &&& forall|i: int| 0 <= i < at ==> (#[trigger] all[i]).priority >= rule.priority
            &&& forall|i: int|
                at < i < all.len() ==> (#[trigger] all[i]).priority < rule.priority
        }),
{
    rule_slot_bound(rules, rule.priority);
    let at = rule_slot(rules, rule.priority) as int;
    let all = rule_added(rules, rule);
    assert(all.remove(at) =~= rules);
    assert forall|i: int| 0 <= i < at implies (#[trigger] all[i]).priority >= rule.priority by {
        assert(all[i] == rules[i]);
        if i < at - 1 {
            assert(rules[i].priority >= rules[at - 1].priority);
        }
    }
    assert forall|i: int| at < i < all.len() implies (#[trigger] all[i]).priority
        < rule.priority by {
        assert(all[i] == rules[i - 1]);
    }
}

/// The log never holds more events than its limit, or one event where the
/// limit is zero; and the newest event is always in it.
pub proof fn log_stays_bounded<T>(events: Seq<T>, max: usize, event: T)
    requires
        events.len() <= max || events.len() <= 1,
    ensures
        logged(events, max, event).len() <= max || logged(events, max, event).len() == 1,
        logged(events, max, event).last() == event,
{
}

} // verus!
