//! Health, readiness and counters of the server.

use crate::admin::handlers::ClusterStats;
use crate::cluster::{healthy_positions, Cluster, Clusters};
use crate::config::types::Config;
use crate::time::{Clock, Duration, Instant};
use std::sync::Arc;
use vstd::prelude::*;

verus! {

/// Result of a reload.
#[derive(Debug)]
pub struct ReloadResult {
    pub success: bool,
    pub message: String,
    pub reload_count: u64,
    pub listeners: usize,
    pub clusters: usize,
    pub routes: usize,
}

/// What came of the parts of a reload that touch files and shared state.
#[derive(Debug)]
pub enum ReloadOutcome {
    /// The configuration could not be loaded.
    LoadFailed(String),
    /// The shared state could not be reloaded.
    StateFailed(String),
    /// Both worked.
    Loaded(Arc<Config>),
}

/// What is counted.
#[derive(Debug, Clone, Copy, PartialEq, Eq, Structural)]
pub struct Counters {
    pub active_connections: u64,
    pub total_connections: u64,
    pub bound_connections: u64,
    pub messages_submitted: u64,
    pub messages_delivered: u64,
    pub messages_failed: u64,
    pub reload_count: u64,
}

/// One more, with zero after the greatest number.
pub open spec fn one_more(n: u64) -> u64 {
    if n == u64::MAX {
        0
    } else {
        (n + 1) as u64
    }
}

/// One less, with the greatest number before zero.
pub open spec fn one_less(n: u64) -> u64 {
    if n == 0 {
        u64::MAX
    } else {
        (n - 1) as u64
    }
}

/// What is known of the server.
#[verifier::ext_equal]
pub struct AdminView {
    pub healthy: bool,
    pub ready: bool,
    pub counters: Counters,
    pub config_path: Seq<char>,
    pub config: Arc<Config>,
}

/// State of the admin server.
#[derive(Debug)]
pub struct AdminState {
    clock: Clock,
    healthy: bool,
    ready: bool,
    counters: Counters,
    config_path: String,
    config: Arc<Config>,
}

impl View for AdminState {
    type V = AdminView;

    closed spec fn view(&self) -> AdminView {
        AdminView {
            healthy: self.healthy,
            ready: self.ready,
            counters: self.counters,
            config_path: self.config_path@,
            config: self.config,
        }
    }
}

/// Statistics of a cluster.
pub open spec fn is_stats_of(s: ClusterStats, name: Seq<char>, cluster: Cluster) -> bool {
    &&& s.name@ == name
    &&& s.endpoints == cluster@.endpoints.len()
    &&& s.healthy_endpoints == healthy_positions(cluster@.endpoints).len()
    &&& s.active_connections == 0
}

impl AdminState {
    /// A server that is healthy but not ready yet.
    pub fn new(config_path: String, config: Arc<Config>) -> (s: Self)
        ensures
            s@ == (AdminView {
                healthy: true,
                ready: false,
                counters: Counters {
                    active_connections: 0,
                    total_connections: 0,
                    bound_connections: 0,
                    messages_submitted: 0,
                    messages_delivered: 0,
                    messages_failed: 0,
                    reload_count: 0,
                },
                config_path: config_path@,
                config,
            }),
    {
        AdminState {
            clock: Clock::new(),
            healthy: true,
            ready: false,
            counters: Counters {
                active_connections: 0,
                total_connections: 0,
                bound_connections: 0,
                messages_submitted: 0,
                messages_delivered: 0,
                messages_failed: 0,
                reload_count: 0,
            },
            config_path,
            config,
        }
    }

    /// Time since the start. How long that is rests on the machine's clock.
    pub fn uptime(&self) -> (d: Duration)
        ensures
            exists|now: Instant| #[trigger] crate::time::is_reading(now, d),
    {
        self.clock.running()
    }

    /// Whether the server is healthy.
    pub fn is_healthy(&self) -> (b: bool)
        ensures
            b == self@.healthy,
    {
        self.healthy
    }

    /// Says whether the server is healthy.
    pub fn set_healthy(&mut self, healthy: bool)
        ensures
            final(self)@ == (AdminView { healthy, ..old(self)@ }),
    {
        self.healthy = healthy;
    }

    /// Whether the server is ready.
    pub fn is_ready(&self) -> (b: bool)
        ensures
            b == self@.ready,
    {
        self.ready
    }

    /// Says whether the server is ready.
    pub fn set_ready(&mut self, ready: bool)
        ensures
            final(self)@ == (AdminView { ready, ..old(self)@ }),
    {
        self.ready = ready;
    }

    /// Number of open connections.
    pub fn active_connections(&self) -> (n: u64)
        ensures
            n == self@.counters.active_connections,
    {
        self.counters.active_connections
    }

    /// Counts a connection that was opened.
    pub fn inc_active_connections(&mut self)
        ensures
            final(self)@ == (AdminView {
                counters: Counters {
                    active_connections: one_more(old(self)@.counters.active_connections),
                    total_connections: one_more(old(self)@.counters.total_connections),
                    ..old(self)@.counters
                },
                ..old(self)@
            }),
    {
        self.counters.active_connections = self.counters.active_connections.wrapping_add(1);
        self.counters.total_connections = self.counters.total_connections.wrapping_add(1);
    }

    /// Counts a connection that was closed.
    pub fn dec_active_connections(&mut self)
        ensures
            final(self)@ == (AdminView {
                counters: Counters {
                    active_connections: one_less(old(self)@.counters.active_connections),
                    ..old(self)@.counters
                },
                ..old(self)@
            }),
    {
        self.counters.active_connections = self.counters.active_connections.wrapping_sub(1);
    }

    /// Number of connections that were ever opened.
    pub fn total_connections(&self) -> (n: u64)
        ensures
            n == self@.counters.total_connections,
    {
        self.counters.total_connections
    }

    /// Number of bound connections.
    pub fn bound_connections(&self) -> (n: u64)
        ensures
            n == self@.counters.bound_connections,
    {
        self.counters.bound_connections
    }

    /// Counts a connection that was bound.
    pub fn inc_bound_connections(&mut self)
        ensures
            final(self)@ == (AdminView {
                counters: Counters {
                    bound_connections: one_more(old(self)@.counters.bound_connections),
                    ..old(self)@.counters
                },
                ..old(self)@
            }),
    {
        self.counters.bound_connections = self.counters.bound_connections.wrapping_add(1);
    }

    /// Counts a connection that was unbound.
    pub fn dec_bound_connections(&mut self)
        ensures
            final(self)@ == (AdminView {
                counters: Counters {
                    bound_connections: one_less(old(self)@.counters.bound_connections),
                    ..old(self)@.counters
                },
                ..old(self)@
            }),
    {
        self.counters.bound_connections = self.counters.bound_connections.wrapping_sub(1);
    }

    /// Number of submitted messages.
    pub fn messages_submitted(&self) -> (n: u64)
        ensures
            n == self@.counters.messages_submitted,
    {
        self.counters.messages_submitted
    }

    /// Counts a submitted message.
    pub fn inc_messages_submitted(&mut self)
        ensures
            final(self)@ == (AdminView {
                counters: Counters {
                    messages_submitted: one_more(old(self)@.counters.messages_submitted),
                    ..old(self)@.counters
                },
                ..old(self)@
            }),
    {
        self.counters.messages_submitted = self.counters.messages_submitted.wrapping_add(1);
    }

    /// Number of delivered messages.
    pub fn messages_delivered(&self) -> (n: u64)
        ensures
            n == self@.counters.messages_delivered,
    {
        self.counters.messages_delivered
    }

    /// Counts a delivered message.
    pub fn inc_messages_delivered(&mut self)
        ensures
            final(self)@ == (AdminView {
                counters: Counters {
                    messages_delivered: one_more(old(self)@.counters.messages_delivered),
                    ..old(self)@.counters
                },
                ..old(self)@
            }),
    {
        self.counters.messages_delivered = self.counters.messages_delivered.wrapping_add(1);
    }

    /// Number of messages that failed.
    pub fn messages_failed(&self) -> (n: u64)
        ensures
            n == self@.counters.messages_failed,
    {
        self.counters.messages_failed
    }

    /// Counts a message that failed.
    pub fn inc_messages_failed(&mut self)
        ensures
            final(self)@ == (AdminView {
                counters: Counters {
                    messages_failed: one_more(old(self)@.counters.messages_failed),
                    ..old(self)@.counters
                },
                ..old(self)@
            }),
    {
        self.counters.messages_failed = self.counters.messages_failed.wrapping_add(1);
    }

    /// Statistics of the clusters.
    pub fn cluster_stats(clusters: &Clusters) -> (stats: Vec<ClusterStats>)
        requires
            clusters.well_formed(),
        ensures
            stats@.map_values(|s: ClusterStats| s.name@).to_set() == clusters@.dom(),
            stats@.map_values(|s: ClusterStats| s.name@).no_duplicates(),
            forall|i: int|
                0 <= i < stats@.len() ==> is_stats_of(
                    #[trigger] stats@[i],
                    stats@[i].name@,
                    clusters@[stats@[i].name@],
                ),
    {
        let names = clusters.names();
        let ghost listed = names@.map_values(|n: &str| n@);
        let mut stats: Vec<ClusterStats> = Vec::new();
        let mut i: usize = 0;
        while i < names.len()
            invariant
                i <= names.len(),
                clusters.well_formed(),
                listed == names@.map_values(|n: &str| n@),
                listed.to_set() == clusters@.dom(),
                stats@.len() == i,
                forall|j: int|
                    0 <= j < i ==> (#[trigger] stats@[j]).name@ == listed[j] && is_stats_of(
                        stats@[j],
                        stats@[j].name@,
                        clusters@[stats@[j].name@],
                    ),
            decreases names.len() - i,
        {
            let name = names[i];
            assert(listed[i as int] == name@);
            assert(listed.to_set().contains(name@));
            if let Some(cluster) = clusters.get(name) {
                stats.push(
                    ClusterStats {
                        name: name.to_string(),
                        endpoints: cluster.endpoint_count(),
                        healthy_endpoints: cluster.healthy_count(),
                        active_connections: 0,
                    },
                );
            }
            i += 1;
        }
        assert(stats@.map_values(|s: ClusterStats| s.name@) =~= listed);
        stats
    }

    /// Takes note of a reload. Only a configuration that was loaded takes the
    /// place of the present one.
    pub fn reload_config(&mut self, outcome: ReloadOutcome) -> (r: Result<ReloadResult, String>)
        ensures
            match outcome {
                ReloadOutcome::LoadFailed(e) => {
                    &&& r matches Err(said)
                    &&& said@ == "failed to load config: "@ + e@
                    &&& final(self)@ == old(self)@
                },
                ReloadOutcome::StateFailed(e) => {
                    &&& r matches Err(said)
                    &&& said@ == "failed to reload gateway state: "@ + e@
                    &&& final(self)@ == old(self)@
                },
                ReloadOutcome::Loaded(config) => {
                    &&& final(self)@ == (AdminView {
                        config,
                        counters: Counters {
                            reload_count: one_more(old(self)@.counters.reload_count),
                            ..old(self)@.counters
                        },
                        ..old(self)@
                    })
                    &&& r matches Ok(result)
                    &&& result.success
                    &&& result.message@ == "Configuration reloaded successfully"@
                    &&& result.reload_count == final(self)@.counters.reload_count
                    &&& result.listeners == config.listeners@.len()
                    &&& result.clusters == config.clusters@.len()
                    &&& result.routes == config.routes@.len()
                },
            },
    {
        match outcome {
            ReloadOutcome::LoadFailed(e) => {
                let mut message = "failed to load config: ".to_string();
                message.append(e.as_str());
                Err(message)
            },
            ReloadOutcome::StateFailed(e) => {
                let mut message = "failed to reload gateway state: ".to_string();
                message.append(e.as_str());
                Err(message)
            },
            ReloadOutcome::Loaded(config) => {
                self.config = config.clone();
                self.counters.reload_count = self.counters.reload_count.wrapping_add(1);
                Ok(
                    ReloadResult {
                        success: true,
                        message: "Configuration reloaded successfully".to_string(),
                        reload_count: self.counters.reload_count,
                        listeners: config.listeners.len(),
                        clusters: config.clusters.len(),
                        routes: config.routes.len(),
                    },
                )
            },
        }
    }

    /// Number of reloads.
    pub fn reload_count(&self) -> (n: u64)
        ensures
            n == self@.counters.reload_count,
    {
        self.counters.reload_count
    }

    /// Path of the configuration.
    pub fn config_path(&self) -> (s: &str)
        ensures
            s@ == self@.config_path,
    {
        self.config_path.as_str()
    }

    /// The configuration that holds.
    pub fn current_config(&self) -> (c: Arc<Config>)
        ensures
            c == self@.config,
    {
        self.config.clone()
    }
}

} // verus!
