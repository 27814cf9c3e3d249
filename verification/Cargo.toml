[package]
name = "retoro"
version = "0.1.0"
edition = "2021"
publish = false

[dependencies]
libp2p = { version = "0.53", features = ["tokio", "tcp", "quic", "noise", "yamux", "gossipsub", "mdns", "relay", "dcutr", "identify", "ping", "macros", "ed25519"] }
tokio = { version = "1", features = ["full"] }
futures = "0.3"
uuid = { version = "1", features = ["v4", "serde"] }
chrono = { version = "0.4", features = ["serde"] }
bincode = "1.3"
serde = { version = "1", features = ["derive"] }
toml = "0.8"
log = "0.4"
pretty_env_logger = "0.5"
anyhow = "1"
thiserror = "1"
ed25519-dalek = { version = "2", features = ["pkcs8", "pem", "rand_core"] }
rand = "0.8"
