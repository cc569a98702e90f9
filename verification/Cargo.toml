[package]
name = "tripi_daemon"
version = "0.1.0"
edition = "2021"
publish = false

[dependencies]
chrono = "0.4"
tokio = { version = "1", features = ["full"] }
tokio-serial = "5"
axum = "0.8"
influxdb2 = { version = "0.5", default-features = false, features = ["rustls"] }
influxdb2-derive = "0.1"
futures = "0.3"
log = "0.4"
env_logger = "0.11"
serde = { version = "1", features = ["derive"] }
serde_json = "1"
thiserror = "2"
num-traits = "0.2"
