[package]
name = "smppd"
version = "0.1.0"
edition = "2021"
publish = false

[dependencies]
regex = "=1.13.1"
ipnet = "=2.12.2"
chrono = "=0.4.45"
chrono-tz = "=0.10.4"
serde = { version = "1", features = ["derive"] }
serde_json = "1"
serde_yaml = "0.9"
toml = "0.8"
humantime = "2"
clap = { version = "4", features = ["derive"] }
tokio = { version = "1", features = ["full"] }
tokio-util = { version = "0.7", features = ["codec"] }
futures = "0.3"
anyhow = "1"
tracing = "0.1"
axum = "0.7"
prometheus = { version = "0.13", default-features = false }
notify = "6"
num_cpus = "1"
tokio-rustls = { version = "0.26", default-features = false, features = ["ring", "tls12"] }
rustls-pemfile = "2"
