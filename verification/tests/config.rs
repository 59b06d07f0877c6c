use smppd::collections::StringSet;
use smppd::config::loader::{extension_of, validate_route, Format, ValidationError};
use smppd::config::store::{check_storable, ConfigError, FileConfigStore, MemoryConfigStore};
use smppd::config::types::{
    default_all_days, default_timezone, default_weight, AdminConfig, ClusterConfig, Config, ConnectionLimits, EndpointConfig,
    FilterType, FjallStoreConfig, HealthCheckConfig, ListenerConfig, LoadBalancer, MatchCondition,
    MemoryStoreConfig, MockConfig, MockResponse, PoolConfig, Protocol, RouteConfig, RouteMatch,
    Settings, ShutdownConfig, StorageBackend, StoreConfig, TelemetryConfig, TrafficSplit,
};
use smppd::config::watcher::{ConfigEvent, ConfigWatcher, FileEvent};
use smppd::net::{IpAddr, SocketAddr};
use smppd::time::Duration;

fn listener(name: &str, port: u16) -> ListenerConfig {
    ListenerConfig {
        name: name.to_string(),
        address: SocketAddr { ip: IpAddr::V4(0), port },
        protocol: Protocol::default(),
        tls: None,
        filters: vec![],
        limits: ConnectionLimits::default(),
    }
}

fn mock_cluster(name: &str) -> ClusterConfig {
    ClusterConfig {
        name: name.to_string(),
        endpoints: vec![],
        load_balancer: LoadBalancer::default(),
        health_check: HealthCheckConfig::default(),
        pool: PoolConfig::default(),
        mock: Some(MockConfig {
            response: MockResponse::default(),
            latency: Duration::from_secs(0),
        }),
    }
}

fn no_match() -> RouteMatch {
    RouteMatch {
        destination: None,
        source: None,
        sender_id: None,
        system_id: None,
        service_type: None,
        esm_class: None,
        data_coding: None,
        time_window: None,
        prefix: Some("".to_string()),
        regex: None,
    }
}

fn route(name: &str, cluster: &str) -> RouteConfig {
    RouteConfig {
        name: name.to_string(),
        match_: no_match(),
        cluster: Some(cluster.to_string()),
        split: None,
        fallback: None,
        priority: 0,
    }
}

fn config_of(
    listeners: Vec<ListenerConfig>,
    clusters: Vec<ClusterConfig>,
    routes: Vec<RouteConfig>,
) -> Config {
    Config {
        listeners,
        clusters,
        routes,
        clients: vec![],
        admin: AdminConfig::default(),
        settings: Settings::default(),
        telemetry: TelemetryConfig::default(),
    }
}

fn minimal_config() -> Config {
    config_of(
        vec![listener("default", 2775)],
        vec![mock_cluster("mock")],
        vec![route("default", "mock")],
    )
}

// Formats

#[test]
fn test_format_detection_yaml() {
    assert_eq!(Format::from_path("config.yaml"), Some(Format::Yaml));
    assert_eq!(Format::from_path("config.yml"), Some(Format::Yaml));
    assert_eq!(Format::from_path("/etc/smppd/config.yaml"), Some(Format::Yaml));
    assert_eq!(Format::from_path("CONFIG.YAML"), Some(Format::Yaml));
}

#[test]
fn test_format_detection_json() {
    assert_eq!(Format::from_path("config.json"), Some(Format::Json));
    assert_eq!(Format::from_path("/etc/smppd/config.json"), Some(Format::Json));
}

#[test]
fn test_format_detection_toml() {
    assert_eq!(Format::from_path("config.toml"), Some(Format::Toml));
    assert_eq!(Format::from_path("/etc/smppd/config.toml"), Some(Format::Toml));
}

#[test]
fn test_format_detection_unknown() {
    assert_eq!(Format::from_path("config.txt"), None);
    assert_eq!(Format::from_path("config.xml"), None);
    assert_eq!(Format::from_path("config"), None);
}

#[test]
fn extensions_follow_the_path_rules() {
    for path in [
        "a.yaml", "/x.y/config", ".yaml", "a/.yaml", "a.b.json", "dir.d/", "..", ".", "a/..",
        "a.toml/.", "", "x.", "/",
    ] {
        let expected =
            std::path::Path::new(path).extension().map(|e| e.to_str().unwrap().to_string());
        assert_eq!(extension_of(path), expected, "{}", path);
    }
    assert_eq!(Format::from_extension("yml"), Some(Format::Yaml));
}

// Validation

#[test]
fn test_validation_requires_listener() {
    let result = config_of(vec![], vec![mock_cluster("upstream")], vec![]).validate();
    assert!(result.is_err());
    let err = result.unwrap_err();
    assert!(err.to_string().contains("listener"));
}

#[test]
fn test_validation_duplicate_listener_names() {
    let config = config_of(
        vec![listener("duplicate", 2775), listener("duplicate", 2776)],
        vec![mock_cluster("upstream")],
        vec![route("default", "upstream")],
    );
    let result = config.validate();
    assert!(result.is_err());
    let err = result.unwrap_err();
    assert!(err.to_string().contains("duplicate"));
}

#[test]
fn test_validation_duplicate_cluster_names() {
    let config = config_of(
        vec![listener("default", 2775)],
        vec![mock_cluster("duplicate"), mock_cluster("duplicate")],
        vec![route("default", "duplicate")],
    );
    let result = config.validate();
    assert!(result.is_err());
    let err = result.unwrap_err();
    assert!(err.to_string().contains("duplicate"));
}

#[test]
fn test_validation_route_references_unknown_cluster() {
    let config = config_of(
        vec![listener("default", 2775)],
        vec![mock_cluster("existing")],
        vec![route("bad-route", "nonexistent")],
    );
    let result = config.validate();
    assert!(result.is_err());
    let err = result.unwrap_err();
    assert!(err.to_string().contains("nonexistent"));
}

#[test]
fn test_validation_cluster_needs_endpoints_or_mock() {
    let mut empty = mock_cluster("empty");
    empty.mock = None;
    let config =
        config_of(vec![listener("default", 2775)], vec![empty], vec![route("default", "empty")]);
    let result = config.validate();
    assert!(result.is_err());
    assert!(matches!(result, Err(ValidationError::EmptyCluster { .. })));
}

#[test]
fn endpoints_make_a_cluster() {
    let mut cluster = mock_cluster("real");
    cluster.mock = None;
    cluster.endpoints.push(EndpointConfig {
        address: "smsc:2775".to_string(),
        system_id: "id".to_string(),
        password: "pw".to_string(),
        system_type: String::new(),
        weight: default_weight(),
        tls: None,
    });
    let config = config_of(vec![listener("l", 1)], vec![cluster], vec![route("r", "real")]);
    assert!(config.validate().is_ok());
}

#[test]
fn routes_have_exactly_one_target() {
    let known = StringSet::from_vec(vec!["a".to_string(), "b".to_string()]);
    let split = |cluster: &str| {
        Some(vec![
            TrafficSplit { cluster: "a".to_string(), weight: 90 },
            TrafficSplit { cluster: cluster.to_string(), weight: 10 },
        ])
    };
    let mut r = route("r", "a");
    assert!(validate_route(&r, &known).is_ok());
    r.split = split("b");
    assert!(matches!(validate_route(&r, &known), Err(ValidationError::TwoTargets { .. })));
    r.cluster = None;
    assert!(validate_route(&r, &known).is_ok());
    r.split = split("x");
    match validate_route(&r, &known) {
        Err(ValidationError::UnknownSplitCluster { route, cluster }) => {
            assert_eq!(route, "r");
            assert_eq!(cluster, "x");
        }
        _ => panic!("expected an unknown cluster"),
    }
    r.split = None;
    assert!(matches!(validate_route(&r, &known), Err(ValidationError::NoTarget { .. })));
    r.cluster = Some("b".to_string());
    r.fallback = Some(vec!["a".to_string(), "y".to_string()]);
    assert!(matches!(
        validate_route(&r, &known),
        Err(ValidationError::UnknownFallbackCluster { .. })
    ));
    r.cluster = Some("z".to_string());
    assert!(matches!(validate_route(&r, &known), Err(ValidationError::UnknownCluster { .. })));
}

#[test]
fn primary_clusters() {
    let mut r = route("r", "a");
    assert_eq!(r.primary_cluster(), Some("a"));
    r.cluster = None;
    assert_eq!(r.primary_cluster(), None);
    r.split = Some(vec![TrafficSplit { cluster: "b".to_string(), weight: 1 }]);
    assert_eq!(r.primary_cluster(), None);
}

// Stores

#[test]
fn test_file_store_unsupported_format() {
    let result = FileConfigStore::new("/etc/smppd/config.txt");
    assert!(result.is_err());
}

#[test]
fn test_file_store_name() {
    let store = FileConfigStore::new("/tmp/config.yaml").unwrap();
    assert_eq!(store.name(), "file");
}

#[test]
fn test_file_store_no_watch() {
    let store = FileConfigStore::new("/tmp/config.yaml").unwrap();
    assert!(!store.supports_watch());
}

#[test]
fn test_file_store_path() {
    let store = FileConfigStore::new("/tmp/config.yaml").unwrap();
    assert_eq!(store.path(), "/tmp/config.yaml");
    assert_eq!(store.format(), Format::Yaml);
}

#[test]
fn test_file_store_with_explicit_format() {
    let store = FileConfigStore::with_format("/some/path/config", Format::Yaml);
    assert_eq!(store.format(), Format::Yaml);
}

#[test]
fn test_memory_store_load() {
    let store = MemoryConfigStore::new(minimal_config());
    let loaded = store.current();
    assert_eq!(loaded.listeners.len(), 1);
    assert_eq!(loaded.listeners[0].name, "default");
}

#[test]
fn test_memory_store_save() {
    let mut store = MemoryConfigStore::new(minimal_config());
    let mut new_config = minimal_config();
    new_config.listeners[0].name = "updated".to_string();
    store.update(new_config).unwrap();
    assert_eq!(store.current().listeners[0].name, "updated");
    assert!(store.supports_save());
    assert!(store.supports_watch());
}

#[test]
fn test_memory_store_name() {
    let store = MemoryConfigStore::new(minimal_config());
    assert_eq!(store.name(), "memory");
}

#[test]
fn test_memory_store_current() {
    let store = MemoryConfigStore::new(minimal_config());
    let current = store.current();
    assert_eq!(current.listeners[0].name, "default");
}

#[test]
fn test_memory_store_validation() {
    let mut store = MemoryConfigStore::new(minimal_config());
    let invalid = config_of(vec![], vec![], vec![]);
    let result = store.update(invalid);
    assert!(result.is_err());
    assert!(matches!(result.unwrap_err(), ConfigError::ValidationFailed(_)));
    assert_eq!(store.current().listeners.len(), 1);
}

#[test]
fn only_valid_configurations_are_stored() {
    assert!(check_storable(&minimal_config()).is_ok());
    match check_storable(&config_of(vec![], vec![], vec![])) {
        Err(ConfigError::ValidationFailed(text)) => assert!(text.contains("listener")),
        _ => panic!("expected a refusal"),
    }
}

#[test]
fn test_config_error_display() {
    let err = ConfigError::LoadFailed("file not found".to_string());
    assert!(err.to_string().contains("file not found"));

    let err = ConfigError::ValidationFailed("invalid config".to_string());
    assert!(err.to_string().contains("invalid config"));
}

// Defaults

#[test]
fn test_default_connection_limits() {
    let limits = ConnectionLimits::default();
    assert_eq!(limits.max_connections, 10000);
    assert_eq!(limits.idle_timeout, Duration::from_secs(60));
    assert_eq!(limits.request_timeout, Duration::from_secs(30));
}

#[test]
fn test_default_health_check_config() {
    let hc = HealthCheckConfig::default();
    assert_eq!(hc.interval, Duration::from_secs(30));
    assert_eq!(hc.timeout, Duration::from_secs(5));
    assert_eq!(hc.unhealthy_threshold, 3);
    assert_eq!(hc.healthy_threshold, 2);
}

#[test]
fn test_default_pool_config() {
    let pool = PoolConfig::default();
    assert_eq!(pool.min_connections, 1);
    assert_eq!(pool.max_connections, 10);
    assert_eq!(pool.acquire_timeout, Duration::from_secs(5));
}

#[test]
fn test_default_admin_config() {
    let admin = AdminConfig::default();
    assert_eq!(admin.address.port(), 9090);
    assert!(admin.metrics);
    assert!(admin.health);
}

#[test]
fn test_default_telemetry_config() {
    let telemetry = TelemetryConfig::default();
    assert_eq!(telemetry.workers, 0);
    assert!(!telemetry.json_logs);
    assert_eq!(telemetry.log_level, "info");
    assert_eq!(f64::from_bits(telemetry.trace_sample_rate_bits), 1.0);
}

#[test]
fn test_default_shutdown_config() {
    let shutdown = ShutdownConfig::default();
    assert_eq!(shutdown.drain_timeout, Duration::from_secs(30));
    assert_eq!(shutdown.parent_shutdown_timeout, Duration::from_secs(60));
}

#[test]
fn test_default_weight() {
    assert_eq!(default_weight(), 1);
}

#[test]
fn default_time_windows() {
    assert_eq!(default_all_days().join(" "), "Mon Tue Wed Thu Fri Sat Sun");
    assert_eq!(default_timezone(), "UTC");
}

#[test]
fn test_protocol_default() {
    assert_eq!(Protocol::default(), Protocol::Smpp);
}

#[test]
fn test_load_balancer_default() {
    assert_eq!(LoadBalancer::default(), LoadBalancer::RoundRobin);
}

#[test]
fn test_mock_response_default() {
    assert!(matches!(MockResponse::default(), MockResponse::Success));
}

#[test]
fn test_filter_types_exist() {
    let _auth = FilterType::Auth;
    let _rate = FilterType::RateLimit;
    let _fw = FilterType::Firewall;
    let _tx = FilterType::Transform;
    let _credit = FilterType::Credit;
    let _otp = FilterType::Otp;
    let _consent = FilterType::Consent;
    let _dlt = FilterType::Dlt;
    let _sender = FilterType::SenderId;
    let _lua = FilterType::Lua;
}

#[test]
fn store_configurations() {
    assert_eq!(StoreConfig::default().backend_name(), StoreConfig::fjall().backend_name());
    assert_eq!(StoreConfig::memory().backend, StorageBackend::Memory);
    assert_eq!(StoreConfig::memory().backend_name(), "memory");
    assert_eq!(StoreConfig::fjall().backend_name(), "fjall");
    assert!(MemoryStoreConfig::default().max_messages > 0);
    assert!(FjallStoreConfig::default().path.is_none());
}

#[test]
fn match_conditions() {
    assert_eq!(MatchCondition::prefix("+258").prefix.as_deref(), Some("+258"));
    assert_eq!(MatchCondition::regex("^a").regex.as_deref(), Some("^a"));
    assert_eq!(MatchCondition::exact("x").exact.as_deref(), Some("x"));
    assert_eq!(MatchCondition::any().any, Some(true));
}

// Watcher

#[test]
fn test_config_reload() {
    let initial = config_of(vec![listener("default", 2775)], vec![], vec![]);
    assert!(initial.validate().is_ok());
    let watcher = ConfigWatcher::new("config.yaml".to_string(), initial);
    assert_eq!(watcher.current().listeners.len(), 1);
}

#[test]
fn watchers_keep_the_last_good_configuration() {
    let mut watcher = ConfigWatcher::new("config.yaml".to_string(), minimal_config());
    assert_eq!(watcher.path(), "config.yaml");
    assert!(watcher.process_event(FileEvent::Modified).is_some());
    assert!(watcher.process_event(FileEvent::Other).is_none());
    assert!(watcher.process_event(FileEvent::Failed).is_none());
    assert!(matches!(
        watcher.loaded(Err("syntax".to_string())),
        ConfigEvent::ReloadFailed(m) if m == "syntax"
    ));
    assert_eq!(watcher.current().listeners[0].name, "default");
    let mut new_config = minimal_config();
    new_config.listeners[0].name = "watched".to_string();
    assert!(matches!(
        watcher.loaded(Ok(new_config)),
        ConfigEvent::Reloaded(c) if c.listeners[0].name == "watched"
    ));
    assert_eq!(watcher.current().listeners[0].name, "watched");
}
