[package]
name = "iota_wallet"
version = "0.1.0"
edition = "2021"
publish = false

[dependencies]
anyhow = "=1.0.104"
chrono = "=0.4.45"
futures = "=0.3.34"
getset = "=0.1.7"
iota-core = "=0.2.0-alpha.3"
iota_stronghold = "=1.0.2"
once_cell = "=1.21.4"
riker = "=0.4.2"
riker-patterns = "=0.4.2"
serde = { version = "=1.0.229", features = ["derive"] }
serde_json = "=1.0.154"
slip10 = "=0.4.3"
thiserror = "=1.0.69"
