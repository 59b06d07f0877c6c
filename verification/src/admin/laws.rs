//! What the admin server counts and tells.

use crate::admin::handlers::{
    health_handler, ready_handler, reload_handler, stats_after, ClusterStats, HealthResponse,
    StatsResponse,
};
use crate::admin::server::{
    one_less, one_more, AdminState, AdminView, Counters, ReloadOutcome, ReloadResult,
};
use crate::cluster::endpoint::EndpointView;
use crate::cluster::{healthy_positions, Cluster};
use crate::time::Duration;
use vstd::prelude::*;

verus! {

/// Statistics tell each count under its own name, the whole seconds for which
/// the server has been running, and each cluster once with its endpoints.
pub proof fn statistics_tell_the_counts(
    r: StatsResponse,
    state: AdminView,
    clusters: Map<Seq<char>, Cluster>,
    uptime: Duration,
)
    requires
        stats_after(r, state, clusters, uptime),
    ensures
        r.uptime_seconds * 1_000_000_000 <= uptime@ < (r.uptime_seconds + 1)
            * 1_000_000_000,
        r.connections.active == state.counters.active_connections,
        r.connections.total == state.counters.total_connections,
        r.connections.bound == state.counters.bound_connections,
        r.messages.submitted == state.counters.messages_submitted,
        r.messages.delivered == state.counters.messages_delivered,
        r.messages.failed == state.counters.messages_failed,
        forall|i: int| 0 <= i < r.clusters@.len() ==> ({
            let s = #[trigger] r.clusters@[i];
            &&& clusters.contains_key(s.name@)
            &&& s.endpoints == clusters[s.name@]@.endpoints.len()
            &&& s.healthy_endpoints <= s.endpoints
        }),
        forall|name: Seq<char>| #[trigger] clusters.contains_key(name) ==> exists|i: int|
            0 <= i < r.clusters@.len() && (#[trigger] r.clusters@[i]).name@ == name,
        forall|i: int, j: int|
            0 <= i < j < r.clusters@.len() ==> (#[trigger] r.clusters@[i]).name@ != (
            #[trigger] r.clusters@[j]).name@,
{
    let names = r.clusters@.map_values(|s: ClusterStats| s.name@);
    assert(forall|i: int|
        0 <= i < r.clusters@.len() ==> #[trigger] names[i] == r.clusters@[i].name@);
    assert forall|i: int| 0 <= i < r.clusters@.len() implies ({
        let s = #[trigger] r.clusters@[i];
        &&& clusters.contains_key(s.name@)
        &&& s.endpoints == clusters[s.name@]@.endpoints.len()
        &&& s.healthy_endpoints <= s.endpoints
    }) by {
        assert(names.contains(names[i]));
        assert(names.to_set().contains(names[i]));
        no_more_healthy_than_there_are(clusters[r.clusters@[i].name@]@.endpoints);
    }
    assert forall|name: Seq<char>| #[trigger] clusters.contains_key(name) implies exists|i: int|
        0 <= i < r.clusters@.len() && (#[trigger] r.clusters@[i]).name@ == name by {
        assert(names.to_set().contains(name));
        let i = choose|i: int| 0 <= i < names.len() && names[i] == name;
        assert(r.clusters@[i].name@ == name);
    }
    assert forall|i: int, j: int| 0 <= i < j < r.clusters@.len() implies (
    #[trigger] r.clusters@[i]).name@ != (#[trigger] r.clusters@[j]).name@ by {
        assert(names[i] != names[j]);
    }
}

proof fn no_more_healthy_than_there_are(endpoints: Seq<EndpointView>)
    ensures
        healthy_positions(endpoints).len() <= endpoints.len(),
    decreases endpoints.len(),
{
    if endpoints.len() > 0 {
        no_more_healthy_than_there_are(endpoints.drop_last());
    }
}

/// The server is told healthy or ready exactly when it is, and each answer has
/// the status that goes with it.
pub proof fn answers_tell_how_the_server_is(
    state: AdminState,
    version: &str,
    health: (u16, HealthResponse),
    ready: u16,
)
    requires
        call_ensures(health_handler, (&state, version), health),
        call_ensures(ready_handler, (&state,), ready),
    ensures
        health.0 == 200 <==> state@.healthy,
        health.0 == 503 <==> !state@.healthy,
        health.1.status@ == "healthy"@ <==> state@.healthy,
        health.1.version@ == version@,
        ready == 200 <==> state@.ready,
        ready == 503 <==> !state@.ready,
{
    reveal_strlit("healthy");
    reveal_strlit("unhealthy");
    assert("healthy"@.len() == 7 && "unhealthy"@.len() == 9);
}

/// A reload is answered with what came of it, or with an error that says what
/// went wrong and how often the configuration was reloaded before.
pub proof fn reloads_are_answered(
    state: AdminState,
    outcome: Result<ReloadResult, String>,
    r: (u16, ReloadResult),
)
    requires
        call_ensures(reload_handler, (&state, outcome), r),
    ensures
        r.0 == 200 <==> outcome is Ok,
        r.0 == 500 <==> outcome is Err,
        outcome matches Ok(result) ==> r.1 == result,
        outcome matches Err(e) ==> !r.1.success && r.1.message@ == e@ && r.1.reload_count
            == state@.counters.reload_count,
{
}

/// Taking one away undoes adding one, and both go round at the ends.
pub proof fn counts_go_up_and_down(n: u64)
    ensures
        one_less(one_more(n)) == n,
        one_more(one_less(n)) == n,
        n < u64::MAX ==> one_more(n) == n + 1,
        n > 0 ==> one_less(n) == n - 1,
{
}

/// Only a configuration that was loaded takes the place of the present one, and
/// only then a reload is counted.
pub proof fn failed_reloads_change_nothing(
    state: &mut AdminState,
    outcome: ReloadOutcome,
    r: Result<ReloadResult, String>,
)
    requires
        call_ensures(AdminState::reload_config, (state, outcome), r),
    ensures
        outcome matches ReloadOutcome::Loaded(config) ==> r is Ok && final(state)@.config == config,
        !(outcome is Loaded) ==> r is Err && final(state)@ == old(state)@,
{
}

/// A connection that opens is counted among the open ones and among all, and
/// one that closes only among the open ones.
pub proof fn connections_open_and_close(opened: &mut AdminState, closed: &mut AdminState)
    requires
        call_ensures(AdminState::inc_active_connections, (opened,), ()),
        call_ensures(AdminState::dec_active_connections, (closed,), ()),
        old(opened)@.counters.active_connections < u64::MAX,
        old(opened)@.counters.total_connections < u64::MAX,
        old(closed)@.counters.active_connections > 0,
    ensures
        final(opened)@.counters.active_connections == old(opened)@.counters.active_connections + 1,
        final(opened)@.counters.total_connections == old(opened)@.counters.total_connections + 1,
        final(opened)@.counters.bound_connections == old(opened)@.counters.bound_connections,
        final(closed)@.counters.active_connections == old(closed)@.counters.active_connections - 1,
        final(closed)@.counters.total_connections == old(closed)@.counters.total_connections,
{
}

/// Messages are counted by what became of them, each count for itself.
pub proof fn messages_are_counted_apart(
    submitted: &mut AdminState,
    delivered: &mut AdminState,
    failed: &mut AdminState,
)
    requires
        call_ensures(AdminState::inc_messages_submitted, (submitted,), ()),
        call_ensures(AdminState::inc_messages_delivered, (delivered,), ()),
        call_ensures(AdminState::inc_messages_failed, (failed,), ()),
        old(submitted)@.counters.messages_submitted < u64::MAX,
        old(delivered)@.counters.messages_delivered < u64::MAX,
        old(failed)@.counters.messages_failed < u64::MAX,
    ensures
        final(submitted)@.counters == (Counters {
            messages_submitted: (old(submitted)@.counters.messages_submitted + 1) as u64,
            ..old(submitted)@.counters
        }),
        final(delivered)@.counters == (Counters {
            messages_delivered: (old(delivered)@.counters.messages_delivered + 1) as u64,
            ..old(delivered)@.counters
        }),
        final(failed)@.counters == (Counters {
            messages_failed: (old(failed)@.counters.messages_failed + 1) as u64,
            ..old(failed)@.counters
        }),
{
}

} // verus!
