[package]
name = "ledger_boot"
version = "0.1.0"
edition = "2021"
publish = false

[dependencies]
tonic = { version = "=0.12.3", features = ["tls"] }
tower = "=0.5.3"
opentelemetry = "=0.27.1"
opentelemetry_sdk = { version = "=0.27.1", features = ["rt-tokio"] }
opentelemetry-otlp = { version = "=0.27.0", features = ["grpc-tonic", "tls"] }
tracing-opentelemetry = "=0.28.0"
tracing-subscriber = { version = "=0.3.23", features = ["env-filter"] }
axum = "=0.7.9"
tokio = { version = "=1.54.1", features = ["macros", "net", "rt-multi-thread", "time"] }

[dev-dependencies]
rcgen = "=0.13.2"
