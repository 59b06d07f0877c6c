//! What clients may do, told by their accounts and by what they ask for.

use super::auth::{
    bind_allowed, checked, checked_strictly, configured, enabled_clients, ip_allowed, networks,
    source_allowed, unrestricted, CredentialsView,
};
use super::chain::{chain_processed, FilterChain};
use super::esme::{
    allowed_by, auth_outcome, day_begun, deleted, esme_by_id, esme_by_system_id, left_of,
    month_begun, quota_after, saved, used, Esme, EsmeQuota, EsmeStatus, EsmesView, UsageView,
};
use super::ratelimit::{acquired, client_of, limited, RateLimiterStore, TokenBucket};
use super::request::{SmppRequest, SmppResponse};
use crate::collections::texts;
use crate::config::types::{BindType, ClientConfig};
use crate::double::seconds_times;
use crate::net::{net_contains, parsed_net, IpAddr};
use crate::time::{elapsed_nanos, Instant};
use vstd::prelude::*;

verus! {

/// A client is known exactly by its system ID and its password, and what it may
/// do is what was kept for it. Strictly, it must be enabled too.
pub proof fn passwords_open_accounts(
    kept: Map<Seq<char>, CredentialsView>,
    system_id: Seq<char>,
    password: Seq<char>,
)
    ensures
        checked(kept, system_id, password) is Some <==> kept.dom().contains(system_id)
            && kept[system_id].password == password,
        checked_strictly(kept, system_id, password) is Some <==> kept.dom().contains(system_id)
            && kept[system_id].password == password && kept[system_id].enabled,
        checked(kept, system_id, password) is Some ==> checked(kept, system_id, password)->0
            == kept[system_id],
        checked_strictly(kept, system_id, password) is Some ==> checked_strictly(
            kept,
            system_id,
            password,
        )->0 == kept[system_id],
{
}

/// What the credentials of a client allow: the kinds of bind and the networks
/// that they name, or all where they name none, and the sources that begin with
/// one that they name, or all where they have no list.
pub proof fn credentials_allow_what_they_name(
    c: CredentialsView,
    kind: BindType,
    ip: IpAddr,
    source: Seq<char>,
)
    ensures
        bind_allowed(c, kind) <==> c.allowed_bind_types.len() == 0 || exists|i: int|
            0 <= i < c.allowed_bind_types.len() && #[trigger] c.allowed_bind_types[i] == kind,
        ip_allowed(c, ip) <==> c.allowed_ips.len() == 0 || exists|i: int|
            0 <= i < c.allowed_ips.len() && net_contains(#[trigger] c.allowed_ips[i], ip),
        c.allowed_sources is None ==> source_allowed(c, source),
        c.allowed_sources is Some ==> (source_allowed(c, source) <==> exists|i: int|
            0 <= i < c.allowed_sources->0.len()
                && #[trigger] c.allowed_sources->0[i].is_prefix_of(source)),
{
}

/// The credentials of a client are those of its configuration.
pub proof fn credentials_are_as_configured(config: ClientConfig)
    ensures
        configured(config).system_id == config.system_id@,
        configured(config).password == config.password@,
        configured(config).allowed_bind_types == config.allowed_bind_types@,
        configured(config).max_connections == config.max_connections,
        configured(config).rate_limit == config.rate_limit,
        configured(config).enabled == config.enabled,
        configured(config).allowed_sources is None <==> config.allowed_sources@.len() == 0,
        config.allowed_sources@.len() > 0 ==> configured(config).allowed_sources->0 == texts(
            config.allowed_sources@,
        ),
        configured(config).allowed_ips == networks(texts(config.allowed_ips@)),
{
}

/// Of the networks of a client those count that can be read, in order.
pub proof fn networks_are_read(list: Seq<Seq<char>>, text: Seq<char>)
    ensures
        networks(Seq::empty()).len() == 0,
        parsed_net(text) is Some ==> networks(list.push(text)) == networks(list).push(
            parsed_net(text)->0,
        ),
        parsed_net(text) is None ==> networks(list.push(text)) == networks(list),
{
    assert(list.push(text).drop_last() =~= list);
}

/// A client that is enabled is known by its name, with its configuration; of
/// several of one name the last enabled one counts.
pub proof fn enabled_clients_are_known(clients: Seq<ClientConfig>, i: int)
    requires
        0 <= i < clients.len(),
        clients[i].enabled,
        forall|j: int|
            i < j < clients.len() && (#[trigger] clients[j]).enabled ==> clients[j].system_id@
                != clients[i].system_id@,
    ensures
        enabled_clients(clients).dom().contains(clients[i].system_id@),
        enabled_clients(clients)[clients[i].system_id@] == configured(clients[i]),
    decreases clients.len(),
{
    let front = clients.drop_last();
    if i < front.len() {
        assert(front[i] == clients[i]);
        assert forall|j: int|
            i < j < front.len() && (#[trigger] front[j]).enabled implies front[j].system_id@
            != front[i].system_id@ by {
            assert(front[j] == clients[j]);
        }
        enabled_clients_are_known(front, i);
        assert(clients.last() == clients[clients.len() - 1]);
    }
}

/// Without any credentials everything is allowed.
pub proof fn strangers_may_do_everything(
    system_id: Seq<char>,
    password: Seq<char>,
    kind: BindType,
    ip: IpAddr,
    source: Seq<char>,
)
    ensures
        unrestricted(system_id, password).enabled,
        bind_allowed(unrestricted(system_id, password), kind),
        ip_allowed(unrestricted(system_id, password), ip),
        source_allowed(unrestricted(system_id, password), source),
        unrestricted(system_id, password).system_id == system_id,
        unrestricted(system_id, password).password == password,
{
}

/// An account binds exactly when it is there, can send, gives its password, and
/// comes from an address that it may come from. What is wrong is told in that
/// order.
pub proof fn accounts_bind(found: Option<&Esme>, password: Seq<char>, ip: Option<Seq<char>>)
    ensures
        found is None <==> auth_outcome(found, password, ip) is NotFound,
        found is Some ==> {
            let esme = found->0;
            let may_send = esme.status is Active || esme.status is Trial;
            let right = esme.credentials.password@ == password;
            let from_there = ip is None || esme.credentials.ip_allow_list is None
                || esme.credentials.ip_allow_list->0@.contains(ip->0);
            let r = auth_outcome(found, password, ip);
            &&& r is Success <==> may_send && right && from_there
            &&& r is Success ==> r->Success_0 == esme
            &&& r is Suspended <==> !may_send
            &&& r is Suspended ==> r->Suspended_0 == esme.status
            &&& r is InvalidCredentials <==> may_send && !right
            &&& r is IpNotAllowed <==> may_send && right && !from_there
        },
{
}

/// An account sends while it is active or tried out.
pub proof fn accounts_send(status: EsmeStatus)
    ensures
        status.sends() <==> status is Active || status is Trial,
{
}

/// A quota is used up with the last message or the last coin that it has, and a
/// quota of nothing is never used up.
pub proof fn quotas_are_used_up(q: EsmeQuota)
    ensures
        q.monthly_messages > 0 && q.current_monthly_messages >= q.monthly_messages ==> q.used_up(),
        q.daily_messages > 0 && q.current_daily_messages >= q.daily_messages ==> q.used_up(),
        q.monthly_spend > 0 && q.current_monthly_spend >= q.monthly_spend ==> q.used_up(),
        q.used_up() ==> (q.monthly_messages > 0 && q.current_monthly_messages
            >= q.monthly_messages) || (q.daily_messages > 0 && q.current_daily_messages
            >= q.daily_messages) || (q.monthly_spend > 0 && q.current_monthly_spend
            >= q.monthly_spend),
{
}

/// What is left of a quota and what was used of it make the quota.
pub proof fn quotas_have_something_left(quota: u64, used: u64)
    ensures
        left_of(quota, used) is None <==> quota == 0,
        quota > 0 && used <= quota ==> left_of(quota, used)->0 + used == quota,
        quota > 0 && used > quota ==> left_of(quota, used)->0 == 0,
{
}

/// A message counts for the day and for the month, and its cost for the month.
/// A new day clears what was sent on the day, and a new month what was sent and
/// spent in the month, and nothing else.
pub proof fn messages_count_against_the_quota(q: EsmeQuota, cost: i64, e: Esme)
    requires
        q.current_daily_messages < u64::MAX,
        q.current_monthly_messages < u64::MAX,
        i64::MIN <= q.current_monthly_spend + cost <= i64::MAX,
    ensures
        quota_after(q, cost).current_daily_messages == q.current_daily_messages + 1,
        quota_after(q, cost).current_monthly_messages == q.current_monthly_messages + 1,
        quota_after(q, cost).current_monthly_spend == q.current_monthly_spend + cost,
        quota_after(q, cost).daily_messages == q.daily_messages,
        quota_after(q, cost).monthly_messages == q.monthly_messages,
        quota_after(q, cost).monthly_spend == q.monthly_spend,
        day_begun(e).quota.current_daily_messages == 0,
        day_begun(e).quota.current_monthly_messages == e.quota.current_monthly_messages,
        day_begun(e).quota.current_monthly_spend == e.quota.current_monthly_spend,
        month_begun(e).quota.current_monthly_messages == 0,
        month_begun(e).quota.current_monthly_spend == 0,
        month_begun(e).quota.current_daily_messages == e.quota.current_daily_messages,
        day_begun(e).id == e.id,
        month_begun(e).id == e.id,
        day_begun(e).quota.daily_messages == e.quota.daily_messages,
        month_begun(e).quota.monthly_messages == e.quota.monthly_messages,
        month_begun(e).quota.monthly_spend == e.quota.monthly_spend,
{
}

/// An account may write to a destination that begins with nothing denied, and
/// with something allowed where it has such a list.
pub proof fn accounts_write_to_allowed_destinations(e: Esme, dest: Seq<char>)
    ensures
        e.allows_destination(dest) <==> (forall|p: Seq<char>|
            #[trigger] e.firewall.destination_deny_list@.contains(p) ==> !p.is_prefix_of(dest)) && (
        e.firewall.destination_allow_list is Some ==> exists|p: Seq<char>|
            #[trigger] e.firewall.destination_allow_list->0@.contains(p) && p.is_prefix_of(dest)),
{
}

/// An account may write under a sender that is not denied, and that is allowed
/// where it has such a list; prices and routes of a country come before the
/// general ones.
pub proof fn accounts_have_their_rules(
    e: Esme,
    sender: Seq<char>,
    country: Seq<char>,
    ip: Seq<char>,
)
    ensures
        e.allows_sender(sender) <==> !e.firewall.sender_deny_list@.contains(sender) && (
        e.firewall.sender_allow_list is None || e.firewall.sender_allow_list->0@.contains(sender)),
        allowed_by(e.credentials.ip_allow_list, ip) <==> e.credentials.ip_allow_list is None
            || e.credentials.ip_allow_list->0@.contains(ip),
        e.prices(None) == (e.pricing.cost_per_message, e.pricing.price_per_message),
        e.pricing.country_pricing@.dom().contains(country) ==> e.prices(Some(country)) == (
            e.pricing.country_pricing@[country].cost,
            e.pricing.country_pricing@[country].price,
        ),
        !e.pricing.country_pricing@.dom().contains(country) ==> e.prices(Some(country)) == (
            e.pricing.cost_per_message,
            e.pricing.price_per_message,
        ),
        e.routing.country_routes@.dom().contains(country) ==> e.cluster_for(Some(country))
            == Some(e.routing.country_routes@[country]@),
        e.cluster_for(None) is Some <==> e.routing.preferred_cluster is Some,
        !e.routing.country_routes@.dom().contains(country) ==> e.cluster_for(Some(country))
            == e.cluster_for(None),
        e.routing.preferred_cluster is Some ==> e.cluster_for(None) == Some(
            e.routing.preferred_cluster->0@,
        ),
{
}

/// The use of an account is the sum of its messages: each one counts, as
/// delivered or as failed, with its cost, its revenue and its latency.
pub proof fn use_is_added_up(
    u: UsageView,
    cost: i64,
    revenue: i64,
    delivered: bool,
    latency: u64,
)
    ensures
        ({
            let after = used(u, cost, revenue, delivered, latency);
            let n = u.delivered + u.failed;
            &&& after.total == u.total + 1
            &&& delivered ==> after.delivered == u.delivered + 1 && after.failed == u.failed
            &&& !delivered ==> after.failed == u.failed + 1 && after.delivered == u.delivered
            &&& after.cost == u.cost + cost
            &&& after.revenue == u.revenue + revenue
            &&& after.avg_latency * (n + 1) <= u.avg_latency * n + latency < (after.avg_latency + 1)
                * (n + 1)
            &&& n == 0 ==> after.avg_latency == latency
        }),
{
    let after = used(u, cost, revenue, delivered, latency);
    let n = u.delivered + u.failed;
    let sum = u.avg_latency * n + latency as nat;
    vstd::arithmetic::div_mod::lemma_fundamental_div_mod(sum as int, (n + 1) as int);
    let q = after.avg_latency as int;
    let r = sum as int % (n + 1) as int;
    assert(sum == (n + 1) * q + r);
    assert((n + 1) * q == q * (n + 1)) by (nonlinear_arith);
    assert((q + 1) * (n + 1) == q * (n + 1) + (n + 1)) by (nonlinear_arith);
    if n == 0 {
        assert(u.avg_latency * n == 0) by (nonlinear_arith)
            requires
                n == 0,
        ;
    }
}

/// An account that is saved again under another system ID is found under that
/// one only, and one that is deleted under none; the others stay.
pub proof fn accounts_are_kept(s: EsmesView, esme: Esme, id: Seq<char>, other: Seq<char>)
    requires
        other != esme.id@,
        other != id,
    ensures
        esme_by_id(saved(s, esme), esme.id@) == Some(esme),
        esme_by_id(saved(s, esme), other) == esme_by_id(s, other),
        esme_by_id(deleted(s, id), id) is None,
        esme_by_id(deleted(s, id), other) == esme_by_id(s, other),
        esme_by_system_id(saved(s, esme), esme.credentials.system_id@) == Some(esme),
        s.esmes.dom().contains(other) ==> esme_by_id(s, other) == Some(s.esmes[other]),
        !s.esmes.dom().contains(other) ==> esme_by_id(s, other) is None,
{
}

/// A bucket lets a request through exactly when it holds a token after it was
/// filled, and the request takes one token. What comes in is the time since it
/// was filled last, times its rate, and no more than fits.
pub proof fn buckets_are_filled_by_time(b: TokenBucket, now: Instant)
    requires
        b.tokens <= b.capacity,
    ensures
        ({
            let came = seconds_times(elapsed_nanos(b.last_refill, now), b.rate as nat);
            let full: nat = if b.tokens + came <= b.capacity {
                b.tokens as nat + came
            } else {
                b.capacity as nat
            };
            let (after, ok) = acquired(b, now);
            &&& ok <==> full > 0
            &&& ok ==> after.tokens == full - 1
            &&& !ok ==> after.tokens == 0
            &&& came > 0 ==> after.last_refill == now
            &&& came == 0 ==> after.last_refill == b.last_refill
            &&& after.rate == b.rate
            &&& after.capacity == b.capacity
        }),
{
}

/// Every client has a bucket of its own; a new one starts with a full burst.
pub proof fn clients_have_their_bucket(
    s: RateLimiterStore,
    after: RateLimiterStore,
    client: Seq<char>,
    now: Instant,
    ok: bool,
)
    requires
        s.requested(after, client, now, ok),
    ensures
        after.buckets().dom().contains(client),
        after.config() == s.config(),
        s.buckets().dom().contains(client) ==> (after.buckets()[client], ok) == acquired(
            s.buckets()[client],
            now,
        ),
        !s.buckets().dom().contains(client) ==> {
            &&& ok <==> s.config().burst_size > 0
            &&& ok ==> after.buckets()[client].tokens == s.config().burst_size - 1
            &&& after.buckets()[client].capacity == s.config().burst_size
            &&& after.buckets()[client].rate == s.config().requests_per_second
            &&& after.buckets()[client].last_refill == now
        },
        forall|other: Seq<char>|
            other != client ==> (#[trigger] after.buckets().dom().contains(other)
                <==> s.buckets().dom().contains(other)),
{
    if !s.buckets().dom().contains(client) {
        assert(elapsed_nanos(now, now) == 0);
        assert(seconds_times(0, s.config().requests_per_second as nat) == 0);
    }
}

/// A request goes on unchanged where there was a token for it, and is refused
/// under its sequence number where there was none. Requests without a client
/// share one bucket.
pub proof fn limited_requests_are_refused(
    request: SmppRequest,
    ok: bool,
    response: SmppResponse,
)
    requires
        limited(request, ok, response),
    ensures
        response is Continue <==> ok,
        ok ==> response->Continue_0 == request,
        !ok ==> response is Reject && response->Reject_sequence == request.sequence
            && response->Reject_status is SystemError,
        request.meta.system_id is Some ==> client_of(request) == request.meta.system_id->0@,
        request.meta.system_id is None ==> client_of(request) == "anonymous"@,
{
}

/// A chain asks first whether a request has a client, where it must have one,
/// and then whether there is a token for it, where it is limited; what passes
/// both goes on unchanged.
pub proof fn chains_ask_in_order(
    before: FilterChain,
    after: FilterChain,
    request: SmppRequest,
    now: Instant,
    ok: bool,
    r: SmppResponse,
)
    requires
        chain_processed(before, after, request, now, ok, r),
    ensures
        before.needs_auth() && request.meta.system_id is None ==> r is Reject
            && r->Reject_sequence == request.sequence && r->Reject_status is InvalidBindStatus
            && after.limiter() == before.limiter(),
        (!before.needs_auth() || request.meta.system_id is Some) && before.limiter() is None
            ==> r is Continue && r->Continue_0 == request,
        (!before.needs_auth() || request.meta.system_id is Some) && before.limiter() is Some ==> (
        r is Continue <==> ok) && after.limiter() is Some
            && before.limiter()->0.store.requested(
            after.limiter()->0.store,
            client_of(request),
            now,
            ok,
        ),
        r is Continue ==> r->Continue_0 == request,
        after.needs_auth() == before.needs_auth(),
{
}

} // verus!
