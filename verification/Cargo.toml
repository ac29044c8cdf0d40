[package]
name = "defguard_client"
version = "0.1.0"
edition = "2021"
publish = false

[dependencies]
anyhow = "=1.0.104"
chrono = "=0.4.45"
local-ip-address = "=0.5.7"
serde = { version = "=1.0.229", features = ["derive"] }
serde_json = "=1.0.154"
sqlx = { version = "=0.7.4", default-features = false, features = ["sqlite", "runtime-tokio", "chrono"] }
struct-patch = "=0.14.4"
tokio = { version = "=1.54.1", features = ["macros", "rt-multi-thread", "sync", "time"] }
tokio-util = "=0.7.20"
tracing-subscriber = { version = "=0.3.23", features = ["env-filter"] }
