[package]
name = "mujina-miner"
version = "0.1.0"
edition = "2021"
publish = false

[dependencies]
anyhow = "=1.0.104"
async-trait = "=0.1.92"
axum = "=0.8.9"
bitcoin = "=0.32.102"
futures = "=0.3.34"
inventory = "=0.3.25"
parking_lot = "=0.12.5"
serde = { version = "=1.0.229", features = ["derive"] }
slotmap = "=1.1.1"
thiserror = "=2.0.21"
tokio = { version = "=1.54.1", features = ["full"] }
tokio-serial = { version = "=5.5.0", default-features = false }
tokio-stream = "=0.1.19"
tokio-util = { version = "=0.7.20", features = ["full"] }
toml = "=1.1.8"
tower-http = { version = "=0.6.11", features = ["trace"] }
tracing = "=0.1.44"
utoipa = "5"
utoipa-axum = "0.2"
utoipa-swagger-ui = { version = "9", default-features = false, features = ["axum", "vendored"] }
