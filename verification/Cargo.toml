[package]
name = "evalx"
version = "0.1.0"
edition = "2021"
publish = false

[dependencies]
anyhow = "1"
aws-config = "1"
aws-sdk-sqs = "1"
axum = { version = "0.7", features = ["ws"] }
core_affinity = "0.8"
dotenv = "0.15"
flate2 = "1"
futures-util = "0.3"
glob = "0.3"
hex = "0.4"
lazy_static = "1"
mobc = "0.8"
mobc-redis = "0.8"
num_cpus = "1"
prometheus = { version = "0.13", default-features = false }
redis = { version = "0.23", features = ["tokio-comp"] }
serde = { version = "1", features = ["derive"] }
serde_json = "1"
sha2 = "0.10"
sysinfo = { version = "0.29", default-features = false }
tokio = { version = "1", features = ["full"] }
toml = "0.8"
tower = "0.4"
tower-http = { version = "0.5", features = ["cors", "trace"] }
tracing = "0.1"
tracing-subscriber = "0.3"
uuid = { version = "1", features = ["v4"] }
