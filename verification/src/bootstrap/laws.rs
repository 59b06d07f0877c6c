//! What the server does while it starts, reloads and ends, told by what happens.

use super::events::{
    category_index, category_of, number_after, one_more, takers, wants, Event, EventCategory,
    EventStats, FilteredSubscription,
};
use super::server::{
    maintenance, server_step, target_text, Notice, Server, ServerAction, ServerEvent,
};
use super::shutdown::{shutdown_step, ShutdownStep, State};
use super::worker::WorkerConfig;
use crate::config::types::RouteConfig;
use crate::text::decimal;
use crate::time::{elapsed_nanos, Duration, Instant};
use vstd::prelude::*;

verus! {

/// The server starts step by step: the admin server first, then the workers,
/// the forwarder and the listeners, and only then it says that it is ready.
pub proof fn the_server_starts_in_order(s: Server, active: u64, ok: bool, now: Instant)
    ensures
        s.phase is Created ==> ({
            let (after, actions) = server_step(s, ServerEvent::Run, now);
            &&& after.phase is BindingAdmin
            &&& actions == seq![
                ServerAction::Publish(Notice::Starting),
                ServerAction::SpawnAdmin,
                ServerAction::Pause(50),
            ]
            &&& after.ready == s.ready
        }),
        s.phase is BindingAdmin ==> ({
            let (after, actions) = server_step(s, ServerEvent::Waited { active }, now);
            after.phase is StartingWorkers && actions == seq![ServerAction::StartWorkers]
        }),
        s.phase is StartingWorkers ==> ({
            let (after, actions) = server_step(s, ServerEvent::WorkersStarted, now);
            after.phase is StartingForwarder && actions == seq![ServerAction::StartForwarder]
        }),
        s.phase is StartingForwarder ==> ({
            let (after, actions) = server_step(s, ServerEvent::ForwarderStarted, now);
            after.phase is StartingListeners && actions == seq![ServerAction::StartListeners]
        }),
        s.phase is StartingListeners ==> ({
            let (after, actions) = server_step(s, ServerEvent::ListenersStarted { ok }, now);
            &&& after.phase is Serving
            &&& after.ready
            &&& after.listening == ok
            &&& actions == seq![
                ServerAction::SetReady(true),
                ServerAction::LogConfig,
                ServerAction::Publish(Notice::Ready),
                ServerAction::StartMaintenance,
                ServerAction::AwaitSignals,
            ]
        }),
{
}

/// The server ends step by step: it is neither ready nor healthy any more,
/// takes no new connections and waits for the open ones, no longer than it may;
/// then the workers stop, and at last everything else.
pub proof fn the_server_ends_in_order(s: Server, active: u64, state: State, now: Instant)
    ensures
        s.phase is Serving ==> ({
            let (after, actions) = server_step(s, ServerEvent::ShutdownSignal, now);
            &&& after.phase is Draining
            &&& !after.ready
            &&& !after.healthy
            &&& actions == seq![
                ServerAction::Publish(Notice::ShutdownStarted),
                ServerAction::StopMaintenance,
                ServerAction::SetReady(false),
                ServerAction::SetHealthy(false),
                ServerAction::BeginDrain,
                ServerAction::Publish(Notice::DrainStarted),
                ServerAction::AwaitDrain,
            ]
        }),
        s.phase is Draining ==> ({
            let (after, actions) = server_step(s, ServerEvent::DrainProgress { active, state }, now);
            &&& active == 0 || state is Terminated ==> after.phase is StoppingWorkers && actions
                == seq![ServerAction::StopWorkers] && !after.listening
            &&& active > 0 && !(state is Terminated) ==> after == s && actions.len() == 0
        }),
        s.phase is Draining ==> ({
            let (after, actions) = server_step(s, ServerEvent::DrainTimedOut, now);
            after.phase is StoppingWorkers && actions == seq![ServerAction::StopWorkers]
        }),
        s.phase is StoppingWorkers ==> ({
            let (after, actions) = server_step(s, ServerEvent::WorkersStopped, now);
            &&& after.phase is Stopped
            &&& actions == seq![
                ServerAction::Terminate,
                ServerAction::StopAdmin,
                ServerAction::Publish(Notice::ShutdownComplete),
            ]
        }),
{
}

/// A reload goes on only with a configuration that could be loaded. Connections
/// get ten seconds to end, then the workers stop, the state is reloaded and the
/// workers start again; all the while the server stays ready.
pub proof fn the_server_reloads_in_order(
    s: Server,
    active: u64,
    ok: bool,
    started: Instant,
    now: Instant,
)
    ensures
        s.phase is Serving ==> ({
            let (after, actions) = server_step(s, ServerEvent::ReloadSignal, now);
            after.phase is LoadingConfig && actions == seq![ServerAction::LoadConfig]
                && after.ready == s.ready
        }),
        s.phase is LoadingConfig ==> ({
            let (after, actions) = server_step(s, ServerEvent::ConfigLoaded { ok, active }, now);
            &&& after.ready == s.ready
            &&& !ok ==> after.phase is Serving && actions == seq![ServerAction::AwaitSignals]
            &&& ok && active > 0 ==> after.phase is DrainingForReload && after.reload_drain == Some(
                now,
            ) && actions == seq![ServerAction::Pause(100)]
            &&& ok && active == 0 ==> after.phase is StoppingOldWorkers && actions
                == seq![ServerAction::StopWorkers]
        }),
        s.phase is DrainingForReload && s.reload_drain == Some(started) ==> ({
            let (after, actions) = server_step(s, ServerEvent::Waited { active }, now);
            let over = elapsed_nanos(started, now) > 10_000_000_000;
            &&& active > 0 && !over ==> after == s && actions == seq![ServerAction::Pause(100)]
            &&& active == 0 || over ==> after.phase is StoppingOldWorkers && actions
                == seq![ServerAction::StopWorkers]
        }),
        s.phase is StoppingOldWorkers ==> ({
            let (after, actions) = server_step(s, ServerEvent::WorkersStopped, now);
            after.phase is ReloadingState && actions == seq![ServerAction::ReloadState]
        }),
        s.phase is ReloadingState ==> ({
            let (after, actions) = server_step(s, ServerEvent::StateReloaded { ok }, now);
            after.phase is StartingNewWorkers && actions == seq![ServerAction::StartWorkers]
        }),
        s.phase is StartingNewWorkers ==> ({
            let (after, actions) = server_step(s, ServerEvent::WorkersStarted, now);
            &&& after.phase is Serving
            &&& after.ready == s.ready
            &&& actions == seq![
                ServerAction::Publish(Notice::ConfigReloaded),
                ServerAction::AwaitSignals,
            ]
        }),
{
}

/// A signal that comes before the server serves, or while it reloads or ends,
/// changes nothing.
pub proof fn signals_wait_for_the_server(s: Server, now: Instant)
    requires
        !(s.phase is Serving),
    ensures
        server_step(s, ServerEvent::ShutdownSignal, now).0 == s,
        server_step(s, ServerEvent::ShutdownSignal, now).1.len() == 0,
        server_step(s, ServerEvent::ReloadSignal, now).0 == s,
        server_step(s, ServerEvent::ReloadSignal, now).1.len() == 0,
{
}

/// Connections are counted while the server runs; while it drains none is
/// added, and with the last one it is over.
pub proof fn connections_are_counted(state: State, active: u64)
    requires
        0 < active < u64::MAX,
    ensures
        shutdown_step(state, active, ShutdownStep::Opened).0 == state,
        state is Running ==> shutdown_step(state, active, ShutdownStep::Opened).1 == active + 1,
        !(state is Running) ==> shutdown_step(state, active, ShutdownStep::Opened).1 == active,
        shutdown_step(state, active, ShutdownStep::Closed).1 == active - 1,
        shutdown_step(state, active, ShutdownStep::Closed).0 is Terminated <==> state is Terminated
            || (state is Draining && active == 1),
        state is Running ==> shutdown_step(state, active, ShutdownStep::Closed).0 is Running,
        shutdown_step(state, active, ShutdownStep::StartDrain).0 is Draining <==> !(
        state is Terminated),
        shutdown_step(state, active, ShutdownStep::StartDrain).1 == active,
        shutdown_step(state, active, ShutdownStep::Terminate).0 is Terminated,
{
}

/// Events of the server's life, of listeners, of clusters, of sessions, of the
/// store and of measures are told apart, and all others are about messages.
pub proof fn events_have_their_category(e: Event)
    ensures
        category_of(e) is Lifecycle <==> (e is Starting || e is Ready || e is ShutdownStarted
            || e is DrainStarted || e is ShutdownComplete || e is ConfigReloaded),
        category_of(e) is Listener <==> (e is ListenerStarted || e is ListenerStopped),
        category_of(e) is Cluster <==> (e is ClusterHealthChanged || e is EndpointUp
            || e is EndpointDown || e is CircuitBreakerOpened || e is CircuitBreakerClosed),
        category_of(e) is Session <==> (e is SessionRegistered || e is SessionUnregistered
            || e is ConnectionOpened || e is ConnectionClosed || e is SessionBound
            || e is SessionUnbound || e is SessionAuthFailed),
        category_of(e) is Storage <==> e is Storage,
        category_of(e) is Metrics <==> e is ThroughputSnapshot,
        category_of(e) is Message <==> (e is MessageSubmitRequest || e is MessageAccepted
            || e is MessageRejected || e is MessageRouted || e is MessageForwarding
            || e is MessageDelivered || e is MessageFailed || e is MessageRetryScheduled
            || e is MessageRetryReady || e is ResponseReady || e is MessageReceived
            || e is MessageSubmitted || e is MessageRetrying || e is DeliveryReceiptReceived
            || e is DeliveryReceiptReady),
{
}

/// What must not get lost: that the server shuts down, a new configuration, an
/// endpoint that is down or cut off, a message to be sent and an answer to one.
pub proof fn critical_events_are_known(e: Event, critical: bool)
    requires
        call_ensures(Event::is_critical, (&e,), critical),
    ensures
        critical <==> (e is ShutdownStarted || e is ConfigReloaded || e is EndpointDown
            || e is CircuitBreakerOpened || e is MessageSubmitRequest || e is ResponseReady),
{
}

/// Categories have places of their own, from the first one to the last.
pub proof fn categories_are_counted_apart(a: EventCategory, b: EventCategory)
    ensures
        category_index(a) == category_index(b) <==> a == b,
        0 <= category_index(a) < 7,
        category_index(EventCategory::Lifecycle) < category_index(EventCategory::Listener)
            < category_index(EventCategory::Cluster) < category_index(EventCategory::Session)
            < category_index(EventCategory::Message) < category_index(EventCategory::Storage)
            < category_index(EventCategory::Metrics),
{
}

/// An event goes to a handler exactly when the handler names no category, or
/// names the one of the event, and handlers get it in their order.
pub proof fn events_go_to_who_wants_them(handlers: Seq<Vec<EventCategory>>, event: Event, i: int)
    requires
        0 <= i < handlers.len() <= usize::MAX,
    ensures
        wants(handlers[i]@, event) <==> handlers[i]@.len() == 0 || exists|k: int|
            0 <= k < handlers[i]@.len() && #[trigger] handlers[i]@[k] == category_of(event),
        takers(handlers, event).contains(i as usize) <==> wants(handlers[i]@, event),
        forall|a: int, b: int|
            0 <= a < b < takers(handlers, event).len() ==> takers(handlers, event)[a] < takers(
                handlers,
                event,
            )[b],
{
    takers_are_known(handlers, event);
    let t = takers(handlers, event);
    if wants(handlers[i]@, event) {
        assert(exists|k: int| 0 <= k < t.len() && #[trigger] t[k] == i);
        let k = choose|k: int| 0 <= k < t.len() && #[trigger] t[k] == i;
        assert(t[k] == i as usize);
    } else if t.contains(i as usize) {
        let k = choose|k: int| 0 <= k < t.len() && t[k] == i as usize;
        assert(wants(handlers[t[k] as int]@, event));
    }
}

proof fn takers_are_known(handlers: Seq<Vec<EventCategory>>, event: Event)
    requires
        handlers.len() <= usize::MAX,
    ensures
        forall|a: int|
            0 <= a < takers(handlers, event).len() ==> (#[trigger] takers(handlers, event)[a])
                < handlers.len() && wants(handlers[takers(handlers, event)[a] as int]@, event),
        forall|i: int|
            0 <= i < handlers.len() && wants(#[trigger] handlers[i]@, event) ==> exists|k: int|
                0 <= k < takers(handlers, event).len() && #[trigger] takers(handlers, event)[k]
                    == i,
        forall|a: int, b: int|
            0 <= a < b < takers(handlers, event).len() ==> takers(handlers, event)[a] < takers(
                handlers,
                event,
            )[b],
    decreases handlers.len(),
{
    if handlers.len() > 0 {
        let init = handlers.drop_last();
        takers_are_known(init, event);
        let front = takers(init, event);
        let t = takers(handlers, event);
        let n = handlers.len() - 1;
        assert forall|a: int| 0 <= a < t.len() implies (#[trigger] t[a]) < handlers.len() && wants(
            handlers[t[a] as int]@,
            event,
        ) by {
            if a < front.len() {
                assert(t[a] == front[a]);
                assert(init[front[a] as int] == handlers[t[a] as int]);
            }
        }
        assert forall|i: int| 0 <= i < handlers.len() && wants(
            #[trigger] handlers[i]@,
            event,
        ) implies exists|k: int| 0 <= k < t.len() && #[trigger] t[k] == i by {
            if i < n {
                assert(wants(init[i]@, event));
                let k = choose|k: int| 0 <= k < front.len() && #[trigger] front[k] == i;
                assert(t[k] == i);
            } else {
                assert(t[t.len() - 1] == i);
            }
        }
        assert forall|a: int, b: int| 0 <= a < b < t.len() implies t[a] < t[b] by {
            assert(t[a] == front[a]);
            if b < front.len() {
                assert(t[b] == front[b]);
            }
        }
    }
}

/// Numbers and counters go up by one, and begin again only after the greatest.
pub proof fn counters_go_up_by_one(n: u64)
    ensures
        n < u64::MAX ==> number_after(n) == n + 1 && one_more(n) == n + 1,
        number_after(u64::MAX) == 0 && one_more(u64::MAX) == 0,
{
}

/// A route is told by its cluster, a split by how many clusters it has.
pub proof fn targets_are_told(route: RouteConfig)
    ensures
        route.cluster matches Some(c) ==> target_text(route) == c@,
        route.cluster is None ==> (route.split matches Some(s) ==> target_text(route) == "split("@
            + decimal(s@.len()) + ")"@),
        route.cluster is None && route.split is None ==> target_text(route) == "none"@,
{
}

/// Messages expire after an hour and are forgotten after a day, as long as the
/// server runs.
pub proof fn old_messages_are_cleared_away(state: State, ages: Option<(Duration, Duration)>)
    requires
        call_ensures(maintenance, (state,), ages),
    ensures
        ages is Some <==> state is Running,
        ages matches Some(a) ==> a.0@ == 60 * 60 * 1_000_000_000 && a.1@ == 24 * 60 * 60
            * 1_000_000_000,
{
}

/// There are as many workers as are asked for, or one for each processor.
pub proof fn workers_are_as_many_as_asked_for(config: WorkerConfig, processors: usize, n: usize)
    requires
        call_ensures(WorkerConfig::worker_count, (&config, processors), n),
    ensures
        config.workers > 0 ==> n == config.workers,
        config.workers == 0 ==> n == processors,
{
}

/// A new server is healthy, but not ready, and does not listen yet.
pub proof fn new_servers_are_not_ready(s: Server)
    requires
        call_ensures(Server::new, (), s),
    ensures
        s.phase is Created,
        !s.ready,
        s.healthy,
        !s.listening,
        s.reload_drain is None,
{
}

/// An event is counted as published and for its category alone, and as dropped
/// exactly when nobody received it.
pub proof fn events_are_counted(stats: &mut EventStats, event: Event, received: bool, c: int)
    requires
        call_ensures(EventStats::record, (stats, &event, received), ()),
        old(stats).published < u64::MAX,
        old(stats).dropped < u64::MAX,
        0 <= c < 7,
        old(stats).by_category@[c] < u64::MAX,
    ensures
        final(stats).published == old(stats).published + 1,
        received ==> final(stats).dropped == old(stats).dropped,
        !received ==> final(stats).dropped == old(stats).dropped + 1,
        category_index(category_of(event)) == c ==> final(stats).by_category@[c] == old(stats).by_category@[c] + 1,
        category_index(category_of(event)) != c ==> final(stats).by_category@[c] == old(stats).by_category@[c],
{
}

/// A subscription gets the first event that waits and that it wants.
pub proof fn subscriptions_get_what_they_want(
    s: FilteredSubscription,
    waiting: Vec<Event>,
    position: Option<usize>,
)
    requires
        call_ensures(FilteredSubscription::try_recv, (&s, &waiting), position),
        s.categories@.len() > 0,
    ensures
        position matches Some(i) ==> i < waiting@.len() && s.categories@.contains(
            category_of(waiting@[i as int]),
        ),
        position matches Some(i) ==> forall|j: int|
            0 <= j < i ==> !s.categories@.contains(category_of(#[trigger] waiting@[j])),
        position is None ==> forall|j: int|
            0 <= j < waiting@.len() ==> !s.categories@.contains(
                category_of(#[trigger] waiting@[j]),
            ),
{
    if position is None {
        assert(forall|j: int|
            0 <= j < waiting@.len() ==> !wants(s.categories@, #[trigger] waiting@[j]));
    }
}

} // verus!
