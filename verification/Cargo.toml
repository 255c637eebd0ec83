[package]
name = "enma"
version = "0.1.0"
edition = "2021"
publish = false

[dependencies]
axum = "0.4"
axum-extra = "0.1"
axum-server = "0.3"
coult = "*"
figlet-rs = "0.1"
humantime-serde = "1"
hyper = "0.14"
log = "0.4"
metrics = "0.18"
metrics-exporter-prometheus = { version = "0.9", default-features = false }
reqwest = { version = "0.11", features = ["json"] }
serde = { version = "1", features = ["derive"] }
serde_json = "1"
serde_yaml = "0.8"
structopt = "0.3"
tokio = { version = "1", features = ["full"] }
tower = { version = "0.4", features = ["buffer", "limit", "load-shed", "timeout", "util"] }
tower-http = { version = "0.2", features = ["trace", "compression-full"] }
tracing = "0.1"
tracing-log = "0.1"
tracing-subscriber = { version = "0.3", features = ["env-filter", "local-time"] }
