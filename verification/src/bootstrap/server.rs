//! Start, reload and shutdown of the server, in order.

use crate::bootstrap::shutdown::State;
use crate::bootstrap::worker::WorkerConfig;
use crate::config::types::{Config, RouteConfig};
use crate::text::{decimal, number};
use crate::time::{elapsed_nanos, Duration, Instant};
use vstd::prelude::*;

verus! {

/// How far the server has come.
#[derive(Debug, Clone, Copy, PartialEq, Eq, Structural)]
pub enum ServerPhase {
    /// Nothing was started.
    Created,
    /// The admin server is given time to bind.
    BindingAdmin,
    /// The workers are being started.
    StartingWorkers,
    /// The forwarder is being started.
    StartingForwarder,
    /// The listeners are being started.
    StartingListeners,
    /// The server waits for signals.
    Serving,
    /// A new configuration is being loaded.
    LoadingConfig,
    /// Connections are given time to end before the reload.
    DrainingForReload,
    /// The workers are being stopped for the reload.
    StoppingOldWorkers,
    /// The shared state is being reloaded.
    ReloadingState,
    /// The workers are being started with the new configuration.
    StartingNewWorkers,
    /// Connections are given time to end before the shutdown.
    Draining,
    /// The workers are being stopped for good.
    StoppingWorkers,
    /// The server has ended.
    Stopped,
}

/// Something that happens to the server.
#[derive(Debug, Clone, Copy, PartialEq, Eq, Structural)]
pub enum ServerEvent {
    /// The server is to run.
    Run,
    /// A pause is over.
    Waited { active: u64 },
    /// The workers run.
    WorkersStarted,
    /// The forwarder runs.
    ForwarderStarted,
    /// The listeners run, or could not be started.
    ListenersStarted { ok: bool },
    /// The signal to reload the configuration.
    ReloadSignal,
    /// The new configuration was loaded, or could not be.
    ConfigLoaded { ok: bool, active: u64 },
    /// The workers have ended.
    WorkersStopped,
    /// The shared state was reloaded, or could not be.
    StateReloaded { ok: bool },
    /// The signal to end.
    ShutdownSignal,
    /// Connections ended, or the shutdown went on.
    DrainProgress { active: u64, state: State },
    /// The time for connections to end is over.
    DrainTimedOut,
}

/// Something that is made known to all components.
#[derive(Debug, Clone, Copy, PartialEq, Eq, Structural)]
pub enum Notice {
    Starting,
    Ready,
    ConfigReloaded,
    ShutdownStarted,
    DrainStarted,
    ShutdownComplete,
}

/// Something that is to be done.
#[derive(Debug, Clone, Copy, PartialEq, Eq, Structural)]
pub enum ServerAction {
    /// Make something known.
    Publish(Notice),
    /// Start the admin server.
    SpawnAdmin,
    /// Pause for some milliseconds.
    Pause(u64),
    /// Start the workers.
    StartWorkers,
    /// Start the forwarder.
    StartForwarder,
    /// Start the listeners.
    StartListeners,
    /// Tell the admin server whether the server is ready.
    SetReady(bool),
    /// Tell the admin server whether the server is healthy.
    SetHealthy(bool),
    /// Log the configuration.
    LogConfig,
    /// Start the maintenance task.
    StartMaintenance,
    /// Stop the maintenance task.
    StopMaintenance,
    /// Wait for signals.
    AwaitSignals,
    /// Load the configuration.
    LoadConfig,
    /// Reload the shared state.
    ReloadState,
    /// Stop the workers.
    StopWorkers,
    /// Accept no more connections.
    BeginDrain,
    /// Wait for connections to end, no longer than the drain timeout.
    AwaitDrain,
    /// End whatever still runs.
    Terminate,
    /// Stop the admin server.
    StopAdmin,
}

/// State of the server.
#[derive(Debug, Clone, Copy, PartialEq, Eq, Structural)]
pub struct Server {
    /// How far it has come.
    pub phase: ServerPhase,
    /// Whether it is ready for clients.
    pub ready: bool,
    /// Whether it is healthy.
    pub healthy: bool,
    /// Whether the listeners run.
    pub listening: bool,
    /// When connections were given time to end before a reload.
    pub reload_drain: Option<Instant>,
}

/// Pause after the admin server was started, in milliseconds.
pub const ADMIN_PAUSE_MS: u64 = 50;

/// Pause between looks at the connections before a reload, in milliseconds.
pub const RELOAD_PAUSE_MS: u64 = 100;

/// Time for connections to end before a reload, in nanoseconds.
pub const RELOAD_DRAIN_NANOS: u128 = 10_000_000_000;

/// A server of which nothing was started.
pub open spec fn created() -> Server {
    Server {
        phase: ServerPhase::Created,
        ready: false,
        healthy: true,
        listening: false,
        reload_drain: None,
    }
}

/// The time for connections to end before a reload is over.
pub open spec fn reload_drain_over(s: Server, now: Instant) -> bool {
    s.reload_drain matches Some(started) && elapsed_nanos(started, now) > RELOAD_DRAIN_NANOS
}

/// The server after an event, and what is to be done.
pub open spec fn server_step(s: Server, event: ServerEvent, now: Instant) -> (
    Server,
    Seq<ServerAction>,
) {
    match (s.phase, event) {
        (ServerPhase::Created, ServerEvent::Run) => (
            Server { phase: ServerPhase::BindingAdmin, ..s },
            seq![
                ServerAction::Publish(Notice::Starting),
                ServerAction::SpawnAdmin,
                ServerAction::Pause(ADMIN_PAUSE_MS),
            ],
        ),
        (ServerPhase::BindingAdmin, ServerEvent::Waited { .. }) => (
            Server { phase: ServerPhase::StartingWorkers, ..s },
            seq![ServerAction::StartWorkers],
        ),
        (ServerPhase::StartingWorkers, ServerEvent::WorkersStarted) => (
            Server { phase: ServerPhase::StartingForwarder, ..s },
            seq![ServerAction::StartForwarder],
        ),
        (ServerPhase::StartingForwarder, ServerEvent::ForwarderStarted) => (
            Server { phase: ServerPhase::StartingListeners, ..s },
            seq![ServerAction::StartListeners],
        ),
        (ServerPhase::StartingListeners, ServerEvent::ListenersStarted { ok }) => (
            Server { phase: ServerPhase::Serving, ready: true, listening: ok, ..s },
            seq![
                ServerAction::SetReady(true),
                ServerAction::LogConfig,
                ServerAction::Publish(Notice::Ready),
                ServerAction::StartMaintenance,
                ServerAction::AwaitSignals,
            ],
        ),
        (ServerPhase::Serving, ServerEvent::ShutdownSignal) => (
            Server { phase: ServerPhase::Draining, ready: false, healthy: false, ..s },
            seq![
                ServerAction::Publish(Notice::ShutdownStarted),
                ServerAction::StopMaintenance,
                ServerAction::SetReady(false),
                ServerAction::SetHealthy(false),
                ServerAction::BeginDrain,
                ServerAction::Publish(Notice::DrainStarted),
                ServerAction::AwaitDrain,
            ],
        ),
        (ServerPhase::Draining, ServerEvent::DrainProgress { active, state }) => if active == 0
            || state == State::Terminated {
            (
                Server { phase: ServerPhase::StoppingWorkers, listening: false, ..s },
                seq![ServerAction::StopWorkers],
            )
        } else {
            (s, seq![])
        },
        (ServerPhase::Draining, ServerEvent::DrainTimedOut) => (
            Server { phase: ServerPhase::StoppingWorkers, listening: false, ..s },
            seq![ServerAction::StopWorkers],
        ),
        (ServerPhase::StoppingWorkers, ServerEvent::WorkersStopped) => (
            Server { phase: ServerPhase::Stopped, ..s },
            seq![
                ServerAction::Terminate,
                ServerAction::StopAdmin,
                ServerAction::Publish(Notice::ShutdownComplete),
            ],
        ),
        _ => reload_step(s, event, now),
    }
}

/// The server after an event of a reload, and what is to be done. An event
/// that does not fit the phase changes nothing.
pub open spec fn reload_step(s: Server, event: ServerEvent, now: Instant) -> (
    Server,
    Seq<ServerAction>,
) {
    match (s.phase, event) {
        (ServerPhase::Serving, ServerEvent::ReloadSignal) => (
            Server { phase: ServerPhase::LoadingConfig, ..s },
            seq![ServerAction::LoadConfig],
        ),
        (ServerPhase::LoadingConfig, ServerEvent::ConfigLoaded { ok, active }) => if !ok {
            (Server { phase: ServerPhase::Serving, ..s }, seq![ServerAction::AwaitSignals])
        } else if active > 0 {
            (
                Server { phase: ServerPhase::DrainingForReload, reload_drain: Some(now), ..s },
                seq![ServerAction::Pause(RELOAD_PAUSE_MS)],
            )
        } else {
            (
                Server { phase: ServerPhase::StoppingOldWorkers, ..s },
                seq![ServerAction::StopWorkers],
            )
        },
        (ServerPhase::DrainingForReload, ServerEvent::Waited { active }) => if active > 0
            && !reload_drain_over(s, now) {
            (s, seq![ServerAction::Pause(RELOAD_PAUSE_MS)])
        } else {
            (
                Server { phase: ServerPhase::StoppingOldWorkers, reload_drain: None, ..s },
                seq![ServerAction::StopWorkers],
            )
        },
        (ServerPhase::StoppingOldWorkers, ServerEvent::WorkersStopped) => (
            Server { phase: ServerPhase::ReloadingState, ..s },
            seq![ServerAction::ReloadState],
        ),
        (ServerPhase::ReloadingState, ServerEvent::StateReloaded { .. }) => (
            Server { phase: ServerPhase::StartingNewWorkers, ..s },
            seq![ServerAction::StartWorkers],
        ),
        (ServerPhase::StartingNewWorkers, ServerEvent::WorkersStarted) => (
            Server { phase: ServerPhase::Serving, ..s },
            seq![ServerAction::Publish(Notice::ConfigReloaded), ServerAction::AwaitSignals],
        ),
        _ => (s, seq![]),
    }
}

impl Server {
    /// A server of which nothing was started.
    pub fn new() -> (s: Self)
        ensures
            s == created(),
    {
        Server {
            phase: ServerPhase::Created,
            ready: false,
            healthy: true,
            listening: false,
            reload_drain: None,
        }
    }

    fn reload_drain_is_over(&self, now: &Instant) -> (b: bool)
        ensures
            b == reload_drain_over(*self, *now),
    {
        match &self.reload_drain {
            Some(started) => now.duration_since(started).as_nanos() > RELOAD_DRAIN_NANOS,
            None => false,
        }
    }

    /// Takes note of an event at a moment, and says what is to be done.
    pub fn run(&mut self, event: ServerEvent, now: &Instant) -> (actions: Vec<ServerAction>)
        ensures
            (*final(self), actions@) == server_step(*old(self), event, *now),
    {
        match (self.phase, event) {
            (ServerPhase::Created, ServerEvent::Run) => {
                self.phase = ServerPhase::BindingAdmin;
                vec![
                    ServerAction::Publish(Notice::Starting),
                    ServerAction::SpawnAdmin,
                    ServerAction::Pause(ADMIN_PAUSE_MS),
                ]
            },
            (ServerPhase::BindingAdmin, ServerEvent::Waited { .. }) => {
                self.phase = ServerPhase::StartingWorkers;
                vec![ServerAction::StartWorkers]
            },
            (ServerPhase::StartingWorkers, ServerEvent::WorkersStarted) => {
                self.phase = ServerPhase::StartingForwarder;
                vec![ServerAction::StartForwarder]
            },
            (ServerPhase::StartingForwarder, ServerEvent::ForwarderStarted) => {
                self.phase = ServerPhase::StartingListeners;
                vec![ServerAction::StartListeners]
            },
            (ServerPhase::StartingListeners, ServerEvent::ListenersStarted { ok }) => {
                self.phase = ServerPhase::Serving;
                self.ready = true;
                self.listening = ok;
                vec![
                    ServerAction::SetReady(true),
                    ServerAction::LogConfig,
                    ServerAction::Publish(Notice::Ready),
                    ServerAction::StartMaintenance,
                    ServerAction::AwaitSignals,
                ]
            },
            (ServerPhase::Serving, ServerEvent::ShutdownSignal) => {
                self.phase = ServerPhase::Draining;
                self.ready = false;
                self.healthy = false;
                vec![
                    ServerAction::Publish(Notice::ShutdownStarted),
                    ServerAction::StopMaintenance,
                    ServerAction::SetReady(false),
                    ServerAction::SetHealthy(false),
                    ServerAction::BeginDrain,
                    ServerAction::Publish(Notice::DrainStarted),
                    ServerAction::AwaitDrain,
                ]
            },
            (ServerPhase::Draining, ServerEvent::DrainProgress { active, state }) => {
                if active == 0 || state == State::Terminated {
                    self.phase = ServerPhase::StoppingWorkers;
                    self.listening = false;
                    vec![ServerAction::StopWorkers]
                } else {
                    Vec::new()
                }
            },
            (ServerPhase::Draining, ServerEvent::DrainTimedOut) => {
                self.phase = ServerPhase::StoppingWorkers;
                self.listening = false;
                vec![ServerAction::StopWorkers]
            },
            (ServerPhase::StoppingWorkers, ServerEvent::WorkersStopped) => {
                self.phase = ServerPhase::Stopped;
                vec![
                    ServerAction::Terminate,
                    ServerAction::StopAdmin,
                    ServerAction::Publish(Notice::ShutdownComplete),
                ]
            },
            _ => self.reload_config(event, now),
        }
    }

    fn reload_config(&mut self, event: ServerEvent, now: &Instant) -> (actions: Vec<ServerAction>)
        ensures
            (*final(self), actions@) == reload_step(*old(self), event, *now),
    {
        match (self.phase, event) {
            (ServerPhase::Serving, ServerEvent::ReloadSignal) => {
                self.phase = ServerPhase::LoadingConfig;
                vec![ServerAction::LoadConfig]
            },
            (ServerPhase::LoadingConfig, ServerEvent::ConfigLoaded { ok, active }) => {
                if !ok {
                    self.phase = ServerPhase::Serving;
                    vec![ServerAction::AwaitSignals]
                } else if active > 0 {
                    self.phase = ServerPhase::DrainingForReload;
                    self.reload_drain = Some(*now);
                    vec![ServerAction::Pause(RELOAD_PAUSE_MS)]
                } else {
                    self.phase = ServerPhase::StoppingOldWorkers;
                    vec![ServerAction::StopWorkers]
                }
            },
            (ServerPhase::DrainingForReload, ServerEvent::Waited { active }) => {
                if active > 0 && !self.reload_drain_is_over(now) {
                    vec![ServerAction::Pause(RELOAD_PAUSE_MS)]
                } else {
                    self.phase = ServerPhase::StoppingOldWorkers;
                    self.reload_drain = None;
                    vec![ServerAction::StopWorkers]
                }
            },
            (ServerPhase::StoppingOldWorkers, ServerEvent::WorkersStopped) => {
                self.phase = ServerPhase::ReloadingState;
                vec![ServerAction::ReloadState]
            },
            (ServerPhase::ReloadingState, ServerEvent::StateReloaded { .. }) => {
                self.phase = ServerPhase::StartingNewWorkers;
                vec![ServerAction::StartWorkers]
            },
            (ServerPhase::StartingNewWorkers, ServerEvent::WorkersStarted) => {
                self.phase = ServerPhase::Serving;
                vec![ServerAction::Publish(Notice::ConfigReloaded), ServerAction::AwaitSignals]
            },
            _ => Vec::new(),
        }
    }
}

/// The shutdown has begun.
pub open spec fn shutting_down(p: ServerPhase) -> bool {
    p is Draining || p is StoppingWorkers || p is Stopped
}

/// The server has been started.
pub open spec fn started(p: ServerPhase) -> bool {
    !(p is Created || p is BindingAdmin || p is StartingWorkers || p is StartingForwarder
        || p is StartingListeners)
}

/// A server is ready exactly from the time it has started until the shutdown
/// begins, and healthy until then.
pub open spec fn readiness_fits(s: Server) -> bool {
    &&& s.ready == (started(s.phase) && !shutting_down(s.phase))
    &&& s.healthy == !shutting_down(s.phase)
}

/// Readiness always fits the phase.
pub proof fn readiness_stays_fit(s: Server, event: ServerEvent, now: Instant)
    requires
        readiness_fits(s),
    ensures
        readiness_fits(created()),
        readiness_fits(server_step(s, event, now).0),
{
}

/// A shutdown that has begun is never taken back: no configuration is loaded
/// and nothing is started any more.
pub proof fn shutdown_is_final(s: Server, event: ServerEvent, now: Instant)
    requires
        shutting_down(s.phase),
    ensures
        ({
            let (after, actions) = server_step(s, event, now);
            &&& shutting_down(after.phase)
            &&& !actions.contains(ServerAction::StartWorkers)
            &&& !actions.contains(ServerAction::StartListeners)
            &&& !actions.contains(ServerAction::LoadConfig)
        }),
{
}

/// Workers are stopped for good only after connections were given time to end:
/// when none is left, when the shutdown was forced, or when the time is over.
pub proof fn workers_stop_after_the_drain(s: Server, event: ServerEvent, now: Instant)
    requires
        server_step(s, event, now).0.phase is StoppingWorkers,
        !(s.phase is StoppingWorkers),
    ensures
        s.phase is Draining,
        event matches ServerEvent::DrainProgress { active, state } ==> active == 0 || state
            == State::Terminated,
        event is DrainProgress || event is DrainTimedOut,
{
}

/// A configuration that cannot be loaded leaves the server as it was.
pub proof fn failed_loads_change_nothing(s: Server, active: u64, now: Instant, later: Instant)
    requires
        s.phase is Serving,
    ensures
        server_step(
            server_step(s, ServerEvent::ReloadSignal, now).0,
            ServerEvent::ConfigLoaded { ok: false, active },
            later,
        ).0 == s,
{
}

/// A reload goes on when no connection is left, and at the latest when its
/// time is over.
pub proof fn reloads_do_not_wait_forever(s: Server, active: u64, now: Instant)
    requires
        s.phase is DrainingForReload,
        active == 0 || reload_drain_over(s, now),
    ensures
        server_step(s, ServerEvent::Waited { active }, now).0.phase is StoppingOldWorkers,
{
}

/// Listeners that cannot be started keep the server from listening, but not
/// from running.
pub proof fn listeners_may_fail(s: Server, ok: bool, now: Instant)
    requires
        s.phase is StartingListeners,
    ensures
        ({
            let after = server_step(s, ServerEvent::ListenersStarted { ok }, now).0;
            after.phase is Serving && after.ready && after.listening == ok
        }),
{
}

/// How long messages live, and how long those that are done with are kept, in
/// seconds.
pub const MESSAGE_TTL_SECS: u64 = 3600;

/// How long messages that are done with are kept, in seconds.
pub const PRUNE_AGE_SECS: u64 = 86400;

/// What the maintenance task does when it wakes up: the time to live of
/// messages and the age at which they go, or nothing once the server no longer
/// runs.
pub fn maintenance(state: State) -> (ages: Option<(Duration, Duration)>)
    ensures
        match ages {
            Some((ttl, prune)) => state == State::Running && ttl@ == 3_600_000_000_000 && prune@
                == 86_400_000_000_000,
            None => state != State::Running,
        },
{
    match state {
        State::Running => Some(
            (Duration::from_secs(MESSAGE_TTL_SECS), Duration::from_secs(PRUNE_AGE_SECS)),
        ),
        _ => None,
    }
}

/// Configuration of the workers.
pub fn create_workers(config: &Config) -> (w: WorkerConfig)
    ensures
        w.workers == config.telemetry.workers,
        w.stack_size == config.telemetry.worker_stack_size,
        w.name_prefix@ == "smppd-worker"@,
{
    WorkerConfig {
        workers: config.telemetry.workers,
        stack_size: config.telemetry.worker_stack_size,
        name_prefix: "smppd-worker".to_string(),
    }
}

/// Where a route leads, as it is logged.
pub open spec fn target_text(route: RouteConfig) -> Seq<char> {
    match route.cluster {
        Some(cluster) => cluster@,
        None => match route.split {
            Some(splits) => "split("@ + decimal(splits@.len()) + ")"@,
            None => "none"@,
        },
    }
}

/// Where a route leads, as it is logged.
pub fn route_target(route: &RouteConfig) -> (text: String)
    ensures
        text@ == target_text(*route),
{
    match &route.cluster {
        Some(cluster) => cluster.clone(),
        None => match &route.split {
            Some(splits) => {
                let mut text = "split(".to_string();
                let digits = number(splits.len() as u64);
                text.append(digits.as_str());
                text.append(")");
                text
            },
            None => "none".to_string(),
        },
    }
}

} // verus!
