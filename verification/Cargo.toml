[package]
name = "axum-stack"
version = "0.2.0"
edition = "2021"
publish = false

[dependencies]
http = "1"
tower-http = { version = "0.6", features = ["cors", "request-id", "compression-gzip", "timeout", "util"] }
tower = { version = "0.5", features = ["util"] }
axum = "0.8"
tokio = { version = "1", features = ["net", "rt-multi-thread", "macros", "signal"] }
healthkit = "*"
shutdown-kit = "*"
graceful-shutdown = "*"
serde_json = "1"
thiserror = "*"
tracing = "*"
