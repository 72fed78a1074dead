[package]
name = "bridge_vaults_exporter"
version = "0.1.0"
edition = "2021"
publish = false

[dependencies]
web3 = { version = "*", default-features = false, features = ["http"] }
serde_json = "1"
tokio = { version = "1", features = ["rt-multi-thread", "macros", "time"] }
futures = "0.3"
parking_lot = "*"
log = "0.4"
log4rs = "*"
anyhow = "1"
thiserror = "1"
argh = "*"
serde = { version = "1", features = ["derive"] }
serde_yaml = "*"
pomfrit = "*"
regex = "1"
num-traits = "0.2"
