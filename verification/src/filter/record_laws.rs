//! What the log of the firewall tells, what its rules are made of, and what is
//! read off a request.

use super::auth::Credentials;
use super::esme::{
    accounts_of, day_begun, month_begun, Esme, EsmeManager, EsmeUsageStats, MemoryEsmeStore,
};
use super::firewall::{
    any_event, logged, newest, of_type, tally, Firewall, FirewallAction, FirewallEvent,
    FirewallEventLog, FirewallEventStats, FirewallEventType, FirewallResult, FirewallResultView,
    FirewallRule, MessageContext, RuleType, TimeWindow,
};
use super::request::{RequestMeta, SmppRequest, SmppResponse};
use crate::pdu::{Pdu, Status};
use crate::text::opt_text;
use crate::time::{parsed_time, zone_known, UtcTime};
use vstd::prelude::*;

verus! {

/// A log takes an event as its last one, and lets the oldest one go only where
/// it is full.
pub proof fn logs_keep_the_last_events<T>(events: Seq<T>, max: usize, event: T)
    ensures
        logged(events, max, event).last() == event,
        events.len() < max ==> logged(events, max, event) == events.push(event),
        events.len() >= max && events.len() > 0 ==> logged(events, max, event).len()
            == events.len() && forall|i: int|
            1 <= i < events.len() ==> #[trigger] events[i] == logged(events, max, event)[i - 1],
{
}

/// The newest events of a log are told from the last one back, as many as are
/// asked for or as there are.
pub proof fn the_newest_events_come_first(
    log: FirewallEventLog,
    count: usize,
    list: Vec<FirewallEvent>,
)
    requires
        call_ensures(FirewallEventLog::recent, (&log, count), list),
    ensures
        list@.len() == if count <= log.events().len() {
            count as int
        } else {
            log.events().len() as int
        },
        forall|i: int|
            0 <= i < list@.len() ==> #[trigger] list@[i] == log.events()[log.events().len() - 1
                - i],
{
    all_are_newest(log.events(), any_event(), count as nat);
}

proof fn all_are_newest<T>(events: Seq<T>, pick: spec_fn(T) -> bool, count: nat)
    requires
        forall|e: T| #[trigger] pick(e),
    ensures
        newest(events, pick, count).len() == if count <= events.len() {
            count as int
        } else {
            events.len() as int
        },
        forall|i: int|
            0 <= i < newest(events, pick, count).len() ==> #[trigger] newest(events, pick, count)[i]
                == events[events.len() - 1 - i],
    decreases events.len(),
{
    if events.len() > 0 && count > 0 {
        let front = events.drop_last();
        all_are_newest(front, pick, (count - 1) as nat);
        let rest = newest(front, pick, (count - 1) as nat);
        assert forall|i: int| 0 <= i < newest(events, pick, count).len() implies #[trigger] newest(
            events,
            pick,
            count,
        )[i] == events[events.len() - 1 - i] by {
            if i > 0 {
                assert(rest[i - 1] == front[front.len() - 1 - (i - 1)]);
            }
        }
    }
}

/// Of one kind only events of that kind are told, no more than are asked for,
/// and all of them where there are fewer.
pub proof fn events_of_a_kind_are_told(
    log: FirewallEventLog,
    kind: FirewallEventType,
    count: usize,
    list: Vec<FirewallEvent>,
)
    requires
        call_ensures(FirewallEventLog::by_type, (&log, kind, count), list),
    ensures
        list@.len() <= count,
        forall|i: int| 0 <= i < list@.len() ==> (#[trigger] list@[i]).event_type == kind,
        list@.len() < count ==> forall|k: int|
            0 <= k < log.events().len() && (#[trigger] log.events()[k]).event_type == kind
                ==> list@.contains(log.events()[k]),
        count > 0 && log.events().len() > 0 && log.events().last().event_type == kind
            ==> list@.len() > 0 && list@[0] == log.events().last(),
{
    picked_are_newest(log.events(), of_type(kind), count as nat);
}

proof fn picked_are_newest<T>(events: Seq<T>, pick: spec_fn(T) -> bool, count: nat)
    ensures
        newest(events, pick, count).len() <= count,
        forall|i: int|
            0 <= i < newest(events, pick, count).len() ==> pick(
                #[trigger] newest(events, pick, count)[i],
            ),
        newest(events, pick, count).len() < count ==> forall|k: int|
            0 <= k < events.len() && pick(#[trigger] events[k]) ==> newest(
                events,
                pick,
                count,
            ).contains(events[k]),
    decreases events.len(),
{
    if events.len() > 0 && count > 0 {
        let front = events.drop_last();
        let found = newest(events, pick, count);
        let taken = pick(events.last());
        let less = if taken {
            (count - 1) as nat
        } else {
            count
        };
        picked_are_newest(front, pick, less);
        let rest = newest(front, pick, less);
        assert forall|i: int| 0 <= i < found.len() implies pick(#[trigger] found[i]) by {
            if taken && i > 0 {
                assert(found[i] == rest[i - 1]);
            }
        }
        if found.len() < count {
            assert forall|k: int| 0 <= k < events.len() && pick(
                #[trigger] events[k],
            ) implies found.contains(events[k]) by {
                if k < front.len() {
                    assert(pick(front[k]));
                    let j = choose|j: int| 0 <= j < rest.len() && rest[j] == front[k];
                    if taken {
                        assert(found[j + 1] == events[k]);
                    } else {
                        assert(found[j] == events[k]);
                    }
                } else {
                    assert(found[0] == events[k]);
                }
            }
        }
    }
}

/// An event counts for its own kind and for no other.
pub proof fn events_count_for_their_kind(
    events: Seq<FirewallEvent>,
    event: FirewallEvent,
    kind: FirewallEventType,
)
    ensures
        tally(Seq::<FirewallEvent>::empty(), of_type(kind)) == 0,
        event.event_type == kind ==> tally(events.push(event), of_type(kind)) == tally(
            events,
            of_type(kind),
        ) + 1,
        event.event_type != kind ==> tally(events.push(event), of_type(kind)) == tally(
            events,
            of_type(kind),
        ),
{
    assert(events.push(event).drop_last() =~= events);
}

/// Statistics tell the number of events of each kind under its own name.
pub proof fn statistics_tell_each_kind(
    log: FirewallEventLog,
    stats: FirewallEventStats,
    blocked: usize,
)
    requires
        call_ensures(FirewallEventLog::stats, (&log,), stats),
        call_ensures(FirewallEventLog::blocked_count, (&log,), blocked),
    ensures
        stats.blocked == tally(log.events(), |e: FirewallEvent| e.event_type is Blocked),
        stats.allowed == tally(log.events(), |e: FirewallEvent| e.event_type is Allowed),
        stats.logged == tally(log.events(), |e: FirewallEvent| e.event_type is Logged),
        stats.quarantined == tally(log.events(), |e: FirewallEvent| e.event_type is Quarantined),
        stats.alarms == tally(log.events(), |e: FirewallEvent| e.event_type is Alarm),
        blocked == stats.blocked,
{
    let all = log.events();
    same_tally(all, of_type(FirewallEventType::Blocked), |e: FirewallEvent| e.event_type is Blocked);
    same_tally(all, of_type(FirewallEventType::Allowed), |e: FirewallEvent| e.event_type is Allowed);
    same_tally(all, of_type(FirewallEventType::Logged), |e: FirewallEvent| e.event_type is Logged);
    same_tally(
        all,
        of_type(FirewallEventType::Quarantined),
        |e: FirewallEvent| e.event_type is Quarantined,
    );
    same_tally(all, of_type(FirewallEventType::Alarm), |e: FirewallEvent| e.event_type is Alarm);
}

proof fn same_tally<T>(events: Seq<T>, p: spec_fn(T) -> bool, q: spec_fn(T) -> bool)
    requires
        forall|e: T| #[trigger] p(e) == q(e),
    ensures
        tally(events, p) == tally(events, q),
    decreases events.len(),
{
    if events.len() > 0 {
        same_tally(events.drop_last(), p, q);
    }
}

/// Rules against words, patterns and destinations block with a status that is
/// about the destination, and rules against senders with one that is about the
/// source. Such a rule is in force for everyone.
pub proof fn rules_block_what_they_name(
    name: &str,
    value: &str,
    keyword: FirewallRule,
    sender: FirewallRule,
    destination: FirewallRule,
)
    requires
        call_ensures(FirewallRule::block_keyword, (name, value), keyword),
        call_ensures(FirewallRule::block_sender, (name, value), sender),
        call_ensures(FirewallRule::block_destination, (name, value), destination),
    ensures
        keyword.rule_type matches RuleType::Keyword(k) && k@ == value@,
        sender.rule_type matches RuleType::SenderId(s) && s@ == value@,
        destination.rule_type matches RuleType::DestinationPrefix(d) && d@ == value@,
        keyword.action == FirewallAction::Block(Status::InvalidDestAddress),
        sender.action == FirewallAction::Block(Status::InvalidSourceAddress),
        destination.action == FirewallAction::Block(Status::InvalidDestAddress),
        keyword.name@ == name@ && sender.name@ == name@ && destination.name@ == name@,
        keyword.enabled && sender.enabled && destination.enabled,
        keyword.esme_id is None && sender.esme_id is None && destination.esme_id is None,
        keyword.priority == 0 && sender.priority == 0 && destination.priority == 0,
{
}

/// Rules against lists of numbers hold these numbers, and block with a status
/// about the side that the numbers are of.
pub proof fn rules_block_the_numbers_they_name(
    name: &str,
    numbers: Vec<String>,
    destinations: FirewallRule,
    sources: FirewallRule,
    number: Seq<char>,
)
    requires
        call_ensures(FirewallRule::deny_destinations, (name, numbers), destinations),
        call_ensures(FirewallRule::deny_sources, (name, numbers), sources),
    ensures
        destinations.rule_type matches RuleType::DestinationList(list) && (list@.contains(number)
            <==> exists|i: int| 0 <= i < numbers@.len() && #[trigger] numbers@[i]@ == number),
        sources.rule_type matches RuleType::SourceList(list) && (list@.contains(number)
            <==> exists|i: int| 0 <= i < numbers@.len() && #[trigger] numbers@[i]@ == number),
        destinations.action == FirewallAction::Block(Status::InvalidDestAddress),
        sources.action == FirewallAction::Block(Status::InvalidSourceAddress),
{
    crate::laws::sets_hold_their_texts(numbers@, number);
}

/// A request tells the addresses and the content of a submitted message each
/// for itself, and of no other unit.
pub proof fn requests_tell_their_message(
    request: SmppRequest,
    destination: Option<&str>,
    source: Option<&str>,
    message: Option<&[u8]>,
)
    requires
        call_ensures(SmppRequest::destination, (&request,), destination),
        call_ensures(SmppRequest::source, (&request,), source),
        call_ensures(SmppRequest::message, (&request,), message),
    ensures
        request.pdu matches Pdu::SubmitSm(sm) ==> {
            &&& destination matches Some(d) && d@ == sm.dest_addr@
            &&& source matches Some(s) && s@ == sm.source_addr@
            &&& message matches Some(m) && m@ == sm.short_message@
        },
        !(request.pdu is SubmitSm) ==> destination is None && source is None && message is None,
{
}

/// A response that passes a request on is no rejection, and the other way round.
pub proof fn responses_are_told_apart(response: SmppResponse, passed: bool, rejected: bool)
    requires
        call_ensures(SmppResponse::is_continue, (&response,), passed),
        call_ensures(SmppResponse::is_reject, (&response,), rejected),
    ensures
        passed <==> response is Continue,
        rejected <==> response is Reject,
{
}

/// Of all accounts those are listed that may send, or all of them, in their
/// order and each with its own ID.
pub proof fn accounts_are_listed(
    esmes: Map<Seq<char>, Esme>,
    ids: Seq<Seq<char>>,
    id: Seq<char>,
)
    ensures
        accounts_of(esmes, ids.push(id), false) == accounts_of(esmes, ids, false).push(esmes[id]),
        esmes[id].status.sends() ==> accounts_of(esmes, ids.push(id), true) == accounts_of(
            esmes,
            ids,
            true,
        ).push(esmes[id]),
        !esmes[id].status.sends() ==> accounts_of(esmes, ids.push(id), true) == accounts_of(
            esmes,
            ids,
            true,
        ),
        accounts_of(esmes, seq![], false).len() == 0 && accounts_of(esmes, seq![], true).len() == 0,
{
    assert(ids.push(id).drop_last() =~= ids);
}

/// A new day takes back what was sent in the day, a new month what was sent and
/// spent in the month, and nothing else.
pub proof fn days_and_months_begin_anew(e: Esme)
    ensures
        day_begun(e).quota.current_daily_messages == 0,
        day_begun(e).quota.current_monthly_messages == e.quota.current_monthly_messages,
        day_begun(e).quota.current_monthly_spend == e.quota.current_monthly_spend,
        month_begun(e).quota.current_daily_messages == e.quota.current_daily_messages,
        month_begun(e).quota.current_monthly_messages == 0,
        month_begun(e).quota.current_monthly_spend == 0,
        day_begun(e).status == e.status && month_begun(e).status == e.status,
        day_begun(e).credentials == e.credentials && month_begun(e).credentials == e.credentials,
{
}

/// A new account is active, unlimited, open to every destination and sender,
/// and has sent nothing; each of its names stands in its place.
pub proof fn new_accounts_are_open(
    e: Esme,
    id: Seq<char>,
    name: Seq<char>,
    system_id: Seq<char>,
    password: Seq<char>,
    now: UtcTime,
    address: Seq<char>,
)
    requires
        e.is_new(id, name, system_id, password, now),
    ensures
        e.id@ == id && e.name@ == name,
        e.credentials.system_id@ == system_id && e.credentials.password@ == password,
        e.status.sends(),
        !e.quota.used_up(),
        e.quota.monthly_messages == 0 && e.quota.monthly_spend == 0 && e.quota.daily_messages == 0,
        e.quota.current_monthly_messages == 0 && e.quota.current_monthly_spend == 0
            && e.quota.current_daily_messages == 0,
        e.rate_limits.messages_per_second == 100 && e.rate_limits.messages_per_minute == 5_000,
        e.rate_limits.messages_per_hour == 100_000 && e.rate_limits.messages_per_day == 1_000_000,
        e.rate_limits.max_connections == 10,
        e.credentials.ip_allow_list is None && !e.credentials.require_tls,
        e.firewall.content_filter_enabled && e.firewall.block_premium_rate,
        e.contact_email is None && e.callback_url is None,
        e.allows_destination(address) && e.allows_sender(address),
        e.prices(Some(address)) == (10i64, 25i64) && e.prices(None) == (10i64, 25i64),
        e.cluster_for(Some(address)) is None,
{
}

/// An answer of the firewall, an event of its log, the credentials of a client
/// and the use of an account say what they hold.
pub proof fn records_say_what_they_hold(
    r: FirewallResult,
    e: FirewallEvent,
    c: Credentials,
    u: EsmeUsageStats,
)
    ensures
        r@.allowed == r.allowed && r@.action == r.action && r@.status == r.status,
        r@.matched_rule == opt_text(r.matched_rule),
        e@.source == e.source@ && e@.destination == e.destination@ && e@.sender_id == e.sender_id@,
        e@.system_id == e.system_id@ && e@.content_preview == e.content_preview@,
        e@.timestamp == e.timestamp && e@.event_type == e.event_type && e@.action == e.action,
        e@.rule_name == opt_text(e.rule_name),
        c@.system_id == c.system_id@ && c@.password == c.password@ && c@.enabled == c.enabled,
        c@.allowed_bind_types == c.allowed_bind_types@ && c@.allowed_ips == c.allowed_ips@,
        c@.max_connections == c.max_connections && c@.rate_limit == c.rate_limit,
        c@.allowed_sources is Some <==> c.allowed_sources is Some,
        u@.total == u.total_messages && u@.delivered == u.delivered_messages && u@.failed
            == u.failed_messages,
        u@.cost == u.total_cost && u@.revenue == u.total_revenue && u@.avg_latency
            == u.avg_latency_ms,
{
}

/// A check changes nothing of a firewall but its log.
pub proof fn checks_change_only_the_log(
    before: Firewall,
    after: Firewall,
    ctx: MessageContext,
    now: UtcTime,
    result: FirewallResultView,
)
    requires
        before.checked(after, ctx, now, result),
    ensures
        after.config() == before.config(),
        after.rules() == before.rules(),
        after.settings() == before.settings(),
        after.log().limit() == before.log().limit(),
{
}

/// A message of an account counts for that account alone.
pub proof fn use_is_counted_for_the_account(
    m: &mut EsmeManager<MemoryEsmeStore>,
    id: &str,
    cost: i64,
    revenue: i64,
    delivered: bool,
    latency: u64,
    other: Seq<char>,
)
    requires
        call_ensures(
            EsmeManager::<MemoryEsmeStore>::record_message,
            (m, id, cost, revenue, delivered, latency),
            (),
        ),
    ensures
        final(m).accounts() == old(m).accounts(),
        final(m).usage_of(id@).total == old(m).usage_of(id@).total + 1,
        delivered ==> final(m).usage_of(id@).delivered == old(m).usage_of(id@).delivered + 1
            && final(m).usage_of(id@).failed == old(m).usage_of(id@).failed,
        !delivered ==> final(m).usage_of(id@).failed == old(m).usage_of(id@).failed + 1 && final(m).usage_of(id@).delivered == old(m).usage_of(id@).delivered,
        final(m).usage_of(id@).cost == old(m).usage_of(id@).cost + cost,
        final(m).usage_of(id@).revenue == old(m).usage_of(id@).revenue + revenue,
        other != id@ ==> final(m).usage_of(other) == old(m).usage_of(other),
{
    if other != id@ {
        assert(final(m).usage().dom().contains(other) <==> old(m).usage().dom().contains(other));
        if old(m).usage().dom().contains(other) {
            assert(final(m).usage()[other] == old(m).usage()[other]);
        }
    }
}

/// A window of time begins and ends at the times that are given for that, on
/// every day, in the zone that is given; without them there is none.
pub proof fn windows_hold_their_times(
    start: &str,
    end: &str,
    zone: &str,
    w: Option<TimeWindow>,
)
    requires
        call_ensures(TimeWindow::new, (start, end, zone), w),
    ensures
        w is Some <==> parsed_time(start@, "%H:%M"@) is Some && parsed_time(end@, "%H:%M"@) is Some
            && zone_known(zone@),
        w matches Some(x) ==> {
            &&& parsed_time(start@, "%H:%M"@) == Some((x.start.secs, x.start.nanos))
            &&& parsed_time(end@, "%H:%M"@) == Some((x.end.secs, x.end.nanos))
            &&& x.timezone@ == zone@
            &&& x.days@.len() == 0
        },
{
}

/// An attribute that is set is found under its name, and no other one changes.
pub proof fn attributes_are_found(
    meta: &mut RequestMeta,
    key: &str,
    value: &str,
    other: Seq<char>,
)
    requires
        call_ensures(RequestMeta::set_attribute, (meta, key, value), ()),
    ensures
        final(meta).attributes@.contains_key(key@) && final(meta).attributes@[key@]@ == value@,
        other != key@ && old(meta).attributes@.contains_key(other)
            ==> final(meta).attributes@[other] == old(meta).attributes@[other],
        final(meta).system_id == old(meta).system_id && final(meta).source_addr
            == old(meta).source_addr,
{
}

} // verus!
