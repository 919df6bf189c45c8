[package]
name = "tunneller"
version = "0.1.0"
edition = "2021"
publish = false

[dependencies]
byteorder = "=1.5.0"
tokio = { version = "=1.54.1", features = ["full"] }
async-trait = "=0.1.92"
actix-web = "=4.18.1"
serde = { version = "=1.0.229", features = ["derive"] }
serde_json = "=1.0.154"
futures = "=0.3.34"
fast-async-mutex = "=0.6.7"
parking_lot = "=0.12.5"
nats = "0.26"
public-ip = "=0.2.2"
env_logger = "=0.9.3"
thiserror = "=1.0.69"
anyhow = "=1.0.104"
lazy_static = "=1.5.1"
