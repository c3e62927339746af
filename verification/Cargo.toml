[package]
name = "rshell"
version = "0.1.0"
edition = "2021"
publish = false

[dependencies]
serde = { version = "=1.0.229", features = ["derive"] }
serde_json = "=1.0.154"
tokio = { version = "=1.54.1", features = ["full"] }
futures = "=0.3.34"
log = "=0.4.35"
pretty_env_logger = "=0.4.0"
libp2p = { version = "0.56", default-features = false, features = ["tokio", "tcp", "mdns", "floodsub", "noise", "yamux", "macros"] }
