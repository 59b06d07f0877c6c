//! Configuration types.

use crate::collections::{texts, StringMap};
use crate::net::{IpAddr, SocketAddr};
use crate::text::opt_text;
use crate::time::Duration;
use vstd::prelude::*;

verus! {

/// How a client binds.
#[derive(Debug, Clone, Copy, PartialEq, Eq, Structural)]
pub enum BindType {
    Transmitter,
    Receiver,
    Transceiver,
}

/// A client that may bind.
#[derive(Debug)]
pub struct ClientConfig {
    /// System ID.
    pub system_id: String,
    /// Password.
    pub password: String,
    /// System type.
    pub system_type: Option<String>,
    /// Bind types allowed; none stands for all.
    pub allowed_bind_types: Vec<BindType>,
    /// Source addresses and sender IDs allowed; none stands for all.
    pub allowed_sources: Vec<String>,
    /// Addresses and networks allowed, in CIDR notation; none stands for all.
    pub allowed_ips: Vec<String>,
    /// Maximum number of connections.
    pub max_connections: Option<usize>,
    /// Rate limit in messages per second.
    pub rate_limit: Option<u32>,
    /// Whether the client may bind at all.
    pub enabled: bool,
}

/// Protocol of a listener.
#[derive(Debug, Clone, Copy, PartialEq, Eq, Structural)]
pub enum Protocol {
    Smpp,
    Http,
    Grpc,
}

impl Default for Protocol {
    fn default() -> (p: Self)
        ensures
            p == Protocol::Smpp,
    {
        Protocol::Smpp
    }
}

/// TLS configuration.
#[derive(Debug)]
pub struct TlsConfig {
    /// Path of the certificate.
    pub cert: String,
    /// Path of the private key.
    pub key: String,
    /// Path of the CA certificate for client authentication.
    pub ca: Option<String>,
    /// Whether a client certificate is required.
    pub require_client_cert: bool,
}

/// Kinds of filters.
#[derive(Debug, Clone, Copy, PartialEq, Eq, Structural)]
pub enum FilterType {
    Auth,
    RateLimit,
    Firewall,
    Transform,
    Credit,
    Otp,
    Consent,
    Dlt,
    SenderId,
    Lua,
}

/// A filter of a listener.
#[derive(Debug)]
pub struct FilterConfig {
    /// Kind of the filter.
    pub filter_type: FilterType,
    /// Settings of the filter, as YAML text.
    pub config: StringMap<String>,
}

/// Limits of a listener.
#[derive(Debug, Clone, Copy, PartialEq, Eq, Structural)]
pub struct ConnectionLimits {
    /// Maximum number of connections.
    pub max_connections: usize,
    /// Time after which an idle connection is closed.
    pub idle_timeout: Duration,
    /// Time after which a request has failed.
    pub request_timeout: Duration,
}

impl Default for ConnectionLimits {
    fn default() -> (l: Self)
        ensures
            l.max_connections == 10_000,
            l.idle_timeout@ == 60_000_000_000,
            l.request_timeout@ == 30_000_000_000,
    {
        ConnectionLimits {
            max_connections: 10_000,
            idle_timeout: Duration::from_secs(60),
            request_timeout: Duration::from_secs(30),
        }
    }
}

/// A listener.
#[derive(Debug)]
pub struct ListenerConfig {
    /// Name.
    pub name: String,
    /// Address to listen on.
    pub address: SocketAddr,
    /// Protocol.
    pub protocol: Protocol,
    /// TLS configuration.
    pub tls: Option<TlsConfig>,
    /// Filters.
    pub filters: Vec<FilterConfig>,
    /// Limits.
    pub limits: ConnectionLimits,
}

/// Weight of an endpoint that has none configured.
pub fn default_weight() -> (w: u32)
    ensures
        w == 1,
{
    1
}

/// An endpoint of a cluster.
#[derive(Debug)]
pub struct EndpointConfig {
    /// Address, host and port.
    pub address: String,
    /// System ID to bind with.
    pub system_id: String,
    /// Password to bind with.
    pub password: String,
    /// System type.
    pub system_type: String,
    /// Weight for load balancing.
    pub weight: u32,
    /// TLS configuration.
    pub tls: Option<TlsConfig>,
}

/// How a cluster spreads messages over its endpoints.
#[derive(Debug, Clone, Copy, PartialEq, Eq, Structural)]
pub enum LoadBalancer {
    RoundRobin,
    LeastConn,
    Weighted,
    Random,
    /// The better of two random endpoints.
    P2c,
    /// Affinity by destination or source.
    ConsistentHash,
    /// Fewest connections for the weight.
    WeightedLeastConn,
}

impl Default for LoadBalancer {
    fn default() -> (b: Self)
        ensures
            b == LoadBalancer::RoundRobin,
    {
        LoadBalancer::RoundRobin
    }
}

/// Health checks of a cluster.
#[derive(Debug, Clone, Copy, PartialEq, Eq, Structural)]
pub struct HealthCheckConfig {
    /// Time between checks.
    pub interval: Duration,
    /// Time after which a check has failed.
    pub timeout: Duration,
    /// Failures in a row that make an endpoint unhealthy.
    pub unhealthy_threshold: u32,
    /// Successes in a row that make an endpoint healthy again.
    pub healthy_threshold: u32,
}

impl Default for HealthCheckConfig {
    fn default() -> (c: Self)
        ensures
            c.interval@ == 30_000_000_000,
            c.timeout@ == 5_000_000_000,
            c.unhealthy_threshold == 3,
            c.healthy_threshold == 2,
    {
        HealthCheckConfig {
            interval: Duration::from_secs(30),
            timeout: Duration::from_secs(5),
            unhealthy_threshold: 3,
            healthy_threshold: 2,
        }
    }
}

/// Connection pool of an endpoint.
#[derive(Debug, Clone, Copy, PartialEq, Eq, Structural)]
pub struct PoolConfig {
    /// Minimum number of connections.
    pub min_connections: usize,
    /// Maximum number of connections.
    pub max_connections: usize,
    /// Time to wait for a connection.
    pub acquire_timeout: Duration,
}

impl Default for PoolConfig {
    fn default() -> (c: Self)
        ensures
            c.min_connections == 1,
            c.max_connections == 10,
            c.acquire_timeout@ == 5_000_000_000,
    {
        PoolConfig {
            min_connections: 1,
            max_connections: 10,
            acquire_timeout: Duration::from_secs(5),
        }
    }
}

/// What a mock cluster answers.
#[derive(Debug, Clone, Copy, PartialEq, Eq, Structural)]
pub enum MockResponse {
    /// Always success.
    Success,
    /// Always an error.
    Error { code: u32 },
    /// An error for some of the messages, in whole percent.
    Random { error_percent: u64 },
}

impl Default for MockResponse {
    fn default() -> (r: Self)
        ensures
            r == MockResponse::Success,
    {
        MockResponse::Success
    }
}

/// A mock cluster.
#[derive(Debug, Clone, Copy, PartialEq, Eq, Structural)]
pub struct MockConfig {
    /// What it answers.
    pub response: MockResponse,
    /// How long it takes.
    pub latency: Duration,
}

/// A cluster of endpoints.
#[derive(Debug)]
pub struct ClusterConfig {
    /// Name.
    pub name: String,
    /// Endpoints.
    pub endpoints: Vec<EndpointConfig>,
    /// Load balancing.
    pub load_balancer: LoadBalancer,
    /// Health checks.
    pub health_check: HealthCheckConfig,
    /// Connection pool.
    pub pool: PoolConfig,
    /// Mock in place of endpoints.
    pub mock: Option<MockConfig>,
}

/// A target of a traffic split.
#[derive(Debug)]
pub struct TrafficSplit {
    /// Target cluster.
    pub cluster: String,
    /// Weight of the cluster.
    pub weight: u32,
}

/// A condition on a text field.
#[derive(Debug)]
pub struct MatchCondition {
    /// Prefix.
    pub prefix: Option<String>,
    /// Regular expression.
    pub regex: Option<String>,
    /// Whole text.
    pub exact: Option<String>,
    /// Any text.
    pub any: Option<bool>,
}

impl MatchCondition {
    /// A prefix.
    pub fn prefix(value: &str) -> (c: Self)
        ensures
            opt_text(c.prefix) == Some(value@),
            c.regex is None,
            c.exact is None,
            c.any is None,
    {
        MatchCondition { prefix: Some(value.to_owned()), regex: None, exact: None, any: None }
    }

    /// A regular expression.
    pub fn regex(pattern: &str) -> (c: Self)
        ensures
            c.prefix is None,
            opt_text(c.regex) == Some(pattern@),
            c.exact is None,
            c.any is None,
    {
        MatchCondition { prefix: None, regex: Some(pattern.to_owned()), exact: None, any: None }
    }

    /// A whole text.
    pub fn exact(value: &str) -> (c: Self)
        ensures
            c.prefix is None,
            c.regex is None,
            opt_text(c.exact) == Some(value@),
            c.any is None,
    {
        MatchCondition { prefix: None, regex: None, exact: Some(value.to_owned()), any: None }
    }

    /// Any text.
    pub fn any() -> (c: Self)
        ensures
            c == (MatchCondition { prefix: None, regex: None, exact: None, any: Some(true) }),
    {
        MatchCondition { prefix: None, regex: None, exact: None, any: Some(true) }
    }
}

/// A time window of a route.
#[derive(Debug)]
pub struct TimeWindow {
    /// First time, as `HH:MM`.
    pub start: String,
    /// Last time, as `HH:MM`.
    pub end: String,
    /// Days of the week.
    pub days: Vec<String>,
    /// Name of the time zone.
    pub timezone: String,
}

/// The days of a time window that names none: the whole week.
pub fn default_all_days() -> (days: Vec<String>)
    ensures
        texts(days@) == seq!["Mon"@, "Tue"@, "Wed"@, "Thu"@, "Fri"@, "Sat"@, "Sun"@],
{
    let mut days: Vec<String> = Vec::new();
    days.push("Mon".to_string());
    days.push("Tue".to_string());
    days.push("Wed".to_string());
    days.push("Thu".to_string());
    days.push("Fri".to_string());
    days.push("Sat".to_string());
    days.push("Sun".to_string());
    assert(texts(days@) =~= seq!["Mon"@, "Tue"@, "Wed"@, "Thu"@, "Fri"@, "Sat"@, "Sun"@]);
    days
}

/// The time zone of a time window that names none.
pub fn default_timezone() -> (zone: String)
    ensures
        zone@ == "UTC"@,
{
    "UTC".to_string()
}

/// What a route matches.
#[derive(Debug)]
pub struct RouteMatch {
    /// Destination.
    pub destination: Option<MatchCondition>,
    /// Source.
    pub source: Option<MatchCondition>,
    /// Sender ID.
    pub sender_id: Option<MatchCondition>,
    /// System ID of the bound client.
    pub system_id: Option<String>,
    /// Service type.
    pub service_type: Option<String>,
    /// ESM class.
    pub esm_class: Option<u8>,
    /// Data codings.
    pub data_coding: Option<Vec<u8>>,
    /// Time window.
    pub time_window: Option<TimeWindow>,
    /// Prefix of the destination.
    pub prefix: Option<String>,
    /// Regular expression for the destination.
    pub regex: Option<String>,
}

/// A route.
#[derive(Debug)]
pub struct RouteConfig {
    /// Name.
    pub name: String,
    /// What it matches.
    pub match_: RouteMatch,
    /// Target cluster.
    pub cluster: Option<String>,
    /// Targets that share the traffic.
    pub split: Option<Vec<TrafficSplit>>,
    /// Clusters to try when the target fails, in order.
    pub fallback: Option<Vec<String>>,
    /// Priority; a lower number comes first.
    pub priority: i32,
}

impl RouteConfig {
    /// The target cluster.
    pub fn primary_cluster(&self) -> (c: Option<&str>)
        ensures
            match self.cluster {
                Some(x) => c matches Some(y) && y@ == x@,
                None => c is None,
            },
    {
        match &self.cluster {
            Some(x) => Some(x.as_str()),
            None => None,
        }
    }
}

/// The admin interface.
#[derive(Debug, Clone, Copy, PartialEq, Eq, Structural)]
pub struct AdminConfig {
    /// Address to listen on.
    pub address: SocketAddr,
    /// Whether metrics are served.
    pub metrics: bool,
    /// Whether health is served.
    pub health: bool,
}

impl Default for AdminConfig {
    fn default() -> (c: Self)
        ensures
            c == (AdminConfig {
                address: SocketAddr { ip: IpAddr::V4(0), port: 9090 },
                metrics: true,
                health: true,
            }),
    {
        AdminConfig {
            address: SocketAddr { ip: IpAddr::V4(0), port: 9090 },
            metrics: true,
            health: true,
        }
    }
}

/// Where messages are stored.
#[derive(Debug, Clone, Copy, PartialEq, Eq, Structural)]
pub enum StorageBackend {
    /// In memory.
    Memory,
    /// In an LSM tree on disk.
    Fjall,
}

impl Default for StorageBackend {
    fn default() -> (b: Self)
        ensures
            b == StorageBackend::Fjall,
    {
        StorageBackend::Fjall
    }
}

/// The store in memory.
#[derive(Debug, Clone, Copy, PartialEq, Eq, Structural)]
pub struct MemoryStoreConfig {
    /// Maximum number of messages.
    pub max_messages: usize,
    /// Approximate maximum of memory, in megabytes.
    pub max_memory_mb: usize,
    /// Share of the messages that is pruned when the store is full, in percent.
    pub prune_percent: u8,
}

impl Default for MemoryStoreConfig {
    fn default() -> (c: Self)
        ensures
            c == (MemoryStoreConfig {
                max_messages: 1_000_000,
                max_memory_mb: 512,
                prune_percent: 10,
            }),
    {
        MemoryStoreConfig { max_messages: 1_000_000, max_memory_mb: 512, prune_percent: 10 }
    }
}

/// The store on disk.
#[derive(Debug)]
pub struct FjallStoreConfig {
    /// Data directory.
    pub path: Option<String>,
    /// Maximum number of messages.
    pub max_messages: usize,
    /// Block cache, in megabytes.
    pub block_cache_mb: usize,
    /// Write buffer, in megabytes.
    pub write_buffer_mb: usize,
    /// Whether every write is synced.
    pub fsync: bool,
    /// Whether data is compressed.
    pub compression: bool,
}

impl Default for FjallStoreConfig {
    fn default() -> (c: Self)
        ensures
            c == (FjallStoreConfig {
                path: None,
                max_messages: 1_000_000,
                block_cache_mb: 64,
                write_buffer_mb: 32,
                fsync: false,
                compression: true,
            }),
    {
        FjallStoreConfig {
            path: None,
            max_messages: 1_000_000,
            block_cache_mb: 64,
            write_buffer_mb: 32,
            fsync: false,
            compression: true,
        }
    }
}

/// The message store.
#[derive(Debug)]
pub struct StoreConfig {
    /// Where messages are stored.
    pub backend: StorageBackend,
    /// Settings of the store in memory.
    pub memory: MemoryStoreConfig,
    /// Settings of the store on disk.
    pub fjall: FjallStoreConfig,
}

/// The store settings that a backend has when nothing else is configured.
pub open spec fn store_defaults(backend: StorageBackend) -> StoreConfig {
    StoreConfig {
        backend,
        memory: MemoryStoreConfig {
            max_messages: 1_000_000,
            max_memory_mb: 512,
            prune_percent: 10,
        },
        fjall: FjallStoreConfig {
            path: None,
            max_messages: 1_000_000,
            block_cache_mb: 64,
            write_buffer_mb: 32,
            fsync: false,
            compression: true,
        },
    }
}

impl Default for StoreConfig {
    fn default() -> (c: Self)
        ensures
            c == store_defaults(StorageBackend::Fjall),
    {
        StoreConfig {
            backend: StorageBackend::default(),
            memory: MemoryStoreConfig::default(),
            fjall: FjallStoreConfig::default(),
        }
    }
}

impl StoreConfig {
    /// The name of the backend.
    pub fn backend_name(&self) -> (name: &'static str)
        ensures
            name@ == match self.backend {
                StorageBackend::Memory => "memory"@,
                StorageBackend::Fjall => "fjall"@,
            },
    {
        match self.backend {
            StorageBackend::Memory => "memory",
            StorageBackend::Fjall => "fjall",
        }
    }

    /// A store in memory.
    pub fn memory() -> (c: Self)
        ensures
            c == store_defaults(StorageBackend::Memory),
    {
        StoreConfig { backend: StorageBackend::Memory, ..StoreConfig::default() }
    }

    /// A store on disk.
    pub fn fjall() -> (c: Self)
        ensures
            c == store_defaults(StorageBackend::Fjall),
    {
        StoreConfig { backend: StorageBackend::Fjall, ..StoreConfig::default() }
    }
}

/// How the server shuts down.
#[derive(Debug, Clone, Copy, PartialEq, Eq, Structural)]
pub struct ShutdownConfig {
    /// Time for connections to drain.
    pub drain_timeout: Duration,
    /// Time for the whole shutdown.
    pub parent_shutdown_timeout: Duration,
}

impl Default for ShutdownConfig {
    fn default() -> (c: Self)
        ensures
            c.drain_timeout@ == 30_000_000_000,
            c.parent_shutdown_timeout@ == 60_000_000_000,
    {
        ShutdownConfig {
            drain_timeout: Duration::from_secs(30),
            parent_shutdown_timeout: Duration::from_secs(60),
        }
    }
}

/// Global settings.
#[derive(Debug)]
pub struct Settings {
    /// Shutdown.
    pub shutdown: ShutdownConfig,
    /// Message store.
    pub store: StoreConfig,
}

impl Default for Settings {
    fn default() -> (s: Self)
        ensures
            s.shutdown.drain_timeout@ == 30_000_000_000,
            s.shutdown.parent_shutdown_timeout@ == 60_000_000_000,
            s.store == store_defaults(StorageBackend::Fjall),
    {
        Settings { shutdown: ShutdownConfig::default(), store: StoreConfig::default() }
    }
}

/// Workers, logs and traces.
#[derive(Debug)]
pub struct TelemetryConfig {
    /// Worker threads; zero stands for one per processor.
    pub workers: usize,
    /// Stack size of a worker, in bytes.
    pub worker_stack_size: usize,
    /// Capacity of the event bus.
    pub bus_capacity: usize,
    /// Whether logs are written as JSON.
    pub json_logs: bool,
    /// Log level.
    pub log_level: String,
    /// Where traces are sent.
    pub otlp_endpoint: Option<String>,
    /// Share of the traces that is kept, given by the bits of a 64-bit float.
    pub trace_sample_rate_bits: u64,
}

impl Default for TelemetryConfig {
    fn default() -> (c: Self)
        ensures
            c.workers == 0,
            c.worker_stack_size == 2_097_152,
            c.bus_capacity == 1024,
            !c.json_logs,
            c.log_level@ == "info"@,
            c.otlp_endpoint is None,
            c.trace_sample_rate_bits == 0x3ff0_0000_0000_0000,
    {
        TelemetryConfig {
            workers: 0,
            worker_stack_size: 2_097_152,
            bus_capacity: 1024,
            json_logs: false,
            log_level: "info".to_owned(),
            otlp_endpoint: None,
            trace_sample_rate_bits: 0x3ff0_0000_0000_0000,
        }
    }
}

/// The whole configuration.
#[derive(Debug)]
pub struct Config {
    /// Listeners for incoming connections.
    pub listeners: Vec<ListenerConfig>,
    /// Clusters of upstream endpoints.
    pub clusters: Vec<ClusterConfig>,
    /// Routes from messages to clusters.
    pub routes: Vec<RouteConfig>,
    /// Clients that may bind.
    pub clients: Vec<ClientConfig>,
    /// Admin interface.
    pub admin: AdminConfig,
    /// Global settings.
    pub settings: Settings,
    /// Workers, logs and traces.
    pub telemetry: TelemetryConfig,
}

} // verus!
