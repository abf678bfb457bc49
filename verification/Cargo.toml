[package]
name = "piece_cache"
version = "0.1.0"
edition = "2021"
publish = false

[dependencies]
anyhow = "1"
async-trait = "0.1"
blake3 = "=1.8.7"
clap = { version = "4", features = ["derive"] }
futures = "0.3"
hex = "=0.4.3"
jsonrpsee = { version = "=0.21.0", features = ["client-core"] }
libp2p-identity = { version = "=0.2.14", features = ["ed25519"] }
parking_lot = "0.12"
reconnecting-jsonrpsee-ws-client = "=0.3.0"
reqwest = { version = "0.12", default-features = false, features = ["rustls-tls"] }
schnorrkel = "=0.11.5"
serde = { version = "1", features = ["derive"] }
serde_json = "=1.0.154"
tokio = { version = "1", features = ["macros", "rt-multi-thread", "sync", "time"] }
tracing = "0.1"
zeroize = "=1.9.1"
