//! Answers of the admin server.

use crate::admin::server::{AdminState, AdminView, ReloadResult};
use crate::cluster::{Cluster, Clusters};
use crate::time::{is_reading, Duration, Instant};
use vstd::prelude::*;

verus! {

/// Status of an answer: all is well.
pub const STATUS_FINE: u16 = 200;

/// Status of an answer: something went wrong.
pub const STATUS_INTERNAL_ERROR: u16 = 500;

/// Status of an answer: the server cannot serve.
pub const STATUS_UNAVAILABLE: u16 = 503;

/// Health of the server.
#[derive(Debug)]
pub struct HealthResponse {
    pub status: String,
    pub version: String,
}

/// Connections of the server.
#[derive(Debug, Clone, Copy, PartialEq, Eq, Structural)]
pub struct ConnectionStats {
    pub active: u64,
    pub total: u64,
    pub bound: u64,
}

/// Messages of the server.
#[derive(Debug, Clone, Copy, PartialEq, Eq, Structural)]
pub struct MessageStats {
    pub submitted: u64,
    pub delivered: u64,
    pub failed: u64,
}

/// Statistics of a cluster.
#[derive(Debug)]
pub struct ClusterStats {
    pub name: String,
    pub endpoints: usize,
    pub healthy_endpoints: usize,
    pub active_connections: u64,
}

/// Statistics of the server.
#[derive(Debug)]
pub struct StatsResponse {
    pub uptime_seconds: u64,
    pub connections: ConnectionStats,
    pub messages: MessageStats,
    pub clusters: Vec<ClusterStats>,
}

/// Statistics of the message store.
#[derive(Debug, Clone, Copy, PartialEq, Eq, Structural)]
pub struct StoreStatsResponse {
    pub total: u64,
    pub pending: u64,
    pub in_flight: u64,
    pub delivered: u64,
    pub failed: u64,
    pub expired: u64,
    pub retrying: u64,
}

/// Answers whether the server is healthy.
pub fn health_handler(state: &AdminState, version: &str) -> (r: (u16, HealthResponse))
    ensures
        r.1.version@ == version@,
        if state@.healthy {
            r.0 == STATUS_FINE && r.1.status@ == "healthy"@
        } else {
            r.0 == STATUS_UNAVAILABLE && r.1.status@ == "unhealthy"@
        },
{
    if state.is_healthy() {
        (
            STATUS_FINE,
            HealthResponse { status: "healthy".to_string(), version: version.to_string() },
        )
    } else {
        (
            STATUS_UNAVAILABLE,
            HealthResponse { status: "unhealthy".to_string(), version: version.to_string() },
        )
    }
}

/// Answers whether the server is ready.
pub fn ready_handler(state: &AdminState) -> (status: u16)
    ensures
        status == if state@.ready {
            STATUS_FINE
        } else {
            STATUS_UNAVAILABLE
        },
{
    if state.is_ready() {
        STATUS_FINE
    } else {
        STATUS_UNAVAILABLE
    }
}

/// Answers that the server runs.
pub fn live_handler() -> (status: u16)
    ensures
        status == STATUS_FINE,
{
    STATUS_FINE
}

/// The connections that are counted.
pub open spec fn connection_stats(s: AdminView) -> ConnectionStats {
    ConnectionStats {
        active: s.counters.active_connections,
        total: s.counters.total_connections,
        bound: s.counters.bound_connections,
    }
}

/// The messages that are counted.
pub open spec fn message_stats(s: AdminView) -> MessageStats {
    MessageStats {
        submitted: s.counters.messages_submitted,
        delivered: s.counters.messages_delivered,
        failed: s.counters.messages_failed,
    }
}

/// Statistics are those of a server that has been running for some time.
pub open spec fn stats_after(
    r: StatsResponse,
    state: AdminView,
    clusters: Map<Seq<char>, Cluster>,
    uptime: Duration,
) -> bool {
    &&& r.uptime_seconds == uptime@ / 1_000_000_000
    &&& r.connections == connection_stats(state)
    &&& r.messages == message_stats(state)
    &&& r.clusters@.map_values(|s: ClusterStats| s.name@).to_set() == clusters.dom()
    &&& r.clusters@.map_values(|s: ClusterStats| s.name@).no_duplicates()
    &&& forall|i: int|
        0 <= i < r.clusters@.len() ==> crate::admin::server::is_stats_of(
            #[trigger] r.clusters@[i],
            r.clusters@[i].name@,
            clusters[r.clusters@[i].name@],
        )
}

/// Answers with statistics of a server that has been running for some time.
pub fn stats_handler_after(state: &AdminState, clusters: &Clusters, uptime: &Duration) -> (r:
    StatsResponse)
    requires
        clusters.well_formed(),
    ensures
        stats_after(r, state@, clusters@, *uptime),
{
    StatsResponse {
        uptime_seconds: uptime.as_secs(),
        connections: ConnectionStats {
            active: state.active_connections(),
            total: state.total_connections(),
            bound: state.bound_connections(),
        },
        messages: MessageStats {
            submitted: state.messages_submitted(),
            delivered: state.messages_delivered(),
            failed: state.messages_failed(),
        },
        clusters: AdminState::cluster_stats(clusters),
    }
}

/// Answers with statistics of the server. How long it has been running rests
/// on the machine's clock.
pub fn stats_handler(state: &AdminState, clusters: &Clusters) -> (r: StatsResponse)
    requires
        clusters.well_formed(),
    ensures
        exists|now: Instant, uptime: Duration| #[trigger]
            is_reading(now, uptime) && #[trigger] stats_after(r, state@, clusters@, uptime),
{
    let uptime = state.uptime();
    stats_handler_after(state, clusters, &uptime)
}

/// Answers a request to reload the configuration.
pub fn reload_handler(state: &AdminState, outcome: Result<ReloadResult, String>) -> (r: (
    u16,
    ReloadResult,
))
    ensures
        match outcome {
            Ok(result) => r.0 == STATUS_FINE && r.1 == result,
            Err(e) => {
                &&& r.0 == STATUS_INTERNAL_ERROR
                &&& !r.1.success
                &&& r.1.message@ == e@
                &&& r.1.reload_count == state@.counters.reload_count
                &&& r.1.listeners == 0
                &&& r.1.clusters == 0
                &&& r.1.routes == 0
            },
        },
{
    match outcome {
        Ok(result) => (STATUS_FINE, result),
        Err(error) => (
            STATUS_INTERNAL_ERROR,
            ReloadResult {
                success: false,
                message: error,
                reload_count: state.reload_count(),
                listeners: 0,
                clusters: 0,
                routes: 0,
            },
        ),
    }
}

} // verus!
