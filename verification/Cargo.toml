[package]
name = "kv_search"
version = "0.1.0"
edition = "2021"
publish = false

[dependencies]
uuid = { version = "=1.29.0", features = ["v4"] }
rand = "=0.9.5"
tokio = { version = "=1.54.1", features = ["rt-multi-thread", "macros", "sync", "time", "net", "io-util", "io-std"] }
dashmap = "=6.2.1"
chrono = "=0.4.45"
lazy_static = "=1.5.1"
tracing = "*"
tracing-subscriber = { version = "*", features = ["env-filter", "registry", "fmt"] }
tracing-opentelemetry = "*"
opentelemetry = "*"
opentelemetry_sdk = "*"
opentelemetry-stdout = "*"
