[package]
name = "request_middleware"
version = "0.1.0"
edition = "2021"
publish = false

[dependencies]
anyhow = "1"
axum = "0.7"
axum-extra = { version = "0.9", features = ["typed-header"] }
chrono = { version = "0.4", features = ["serde"] }
futures-util = "0.3"
http = "1"
opentelemetry = "0.22"
opentelemetry-prometheus = "0.15"
opentelemetry_sdk = "0.22"
pin-project = "1"
prometheus = "0.13"
rusty_ulid = "2"
serde = { version = "1", features = ["derive"] }
serde_json = "1"
tokio = { version = "1", features = ["full"] }
tower-layer = "0.3"
tower-service = "0.3"
tracing = "0.1"
tracing-opentelemetry = "0.23"
tracing-subscriber = { version = "0.3", features = ["env-filter"] }
