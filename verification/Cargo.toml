[package]
name = "sphagnumdb"
version = "0.1.0"
edition = "2021"
publish = false

[dependencies]
libp2p = { version = "*", default-features = false, features = ["tokio", "tcp", "noise", "yamux", "ping", "request-response", "json", "macros", "ed25519"] }
libp2p-swarm-derive = "*"
futures = "0.3"
tokio = { version = "1", default-features = false, features = ["rt-multi-thread", "macros", "io-std", "io-util", "sync", "time"] }
serde = { version = "1", features = ["derive"] }
