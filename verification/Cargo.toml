[package]
name = "publish_core"
version = "0.1.0"
edition = "2021"
publish = false

[dependencies]
rs_merkle = "=1.5.0"
serde_cbor = "=0.11.2"
serde = { version = "=1.0.229", features = ["derive"] }
tokio = { version = "=1.54.1", features = ["rt-multi-thread", "macros", "sync", "fs", "signal"] }
tokio-util = "=0.7.20"
tonic = "=0.12.3"
prost = "=0.13.5"
async-trait = "=0.1.92"
log = "=0.4.34"
thiserror = "=1.0.69"
anyhow = "=1.0.104"
rocksdb = { version = "0.22", default-features = false }
