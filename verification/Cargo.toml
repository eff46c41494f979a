[package]
name = "p2p-chat"
version = "0.1.0"
edition = "2021"
publish = false

[dependencies]
anyhow = "1"
clap = { version = "4", features = ["derive"] }
diffy = "*"
futures = "0.3"
libp2p = { version = "0.56", features = ["tokio", "gossipsub", "identify", "kad", "macros", "mdns", "noise", "tcp", "yamux"] }
libp2p-stream = "0.4.0-alpha"
notify = "*"
tokio = { version = "1", features = ["full"] }
tracing-subscriber = "0.3"
