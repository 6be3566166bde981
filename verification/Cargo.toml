[package]
name = "grabnet"
version = "0.1.0"
edition = "2021"
publish = false

[dependencies]
blake3 = "=1.8.7"
bs58 = "=0.5.1"
ed25519-dalek = { version = "=2.2.0", features = ["rand_core"] }
rand = "=0.8.8"
flate2 = "=1.1.10"
mime_guess = "=2.0.5"
sled = "=0.34.7"
anyhow = "=1.0.104"
async-trait = "=0.1.92"
tokio = { version = "=1.54.1", default-features = false, features = ["rt-multi-thread", "macros", "sync", "time", "net", "signal"] }
libp2p = { version = "=0.53.2", default-features = false, features = ["tokio", "tcp", "noise", "yamux", "kad", "gossipsub", "mdns", "identify", "request-response", "macros"] }
axum = { version = "=0.7.9", default-features = false, features = ["tokio", "http1", "json", "query"] }
tower-http = { version = "=0.5.2", default-features = false, features = ["cors"] }
serde = { version = "=1.0.229", features = ["derive"] }
serde_json = "=1.0.154"
tracing = "=0.1.44"
tracing-subscriber = { version = "=0.3.23", default-features = false, features = ["fmt"] }
clap = { version = "=4.6.7", default-features = false, features = ["std", "derive", "help", "usage", "env"] }
walkdir = "=2.5.0"
parking_lot = "=0.12.5"
futures = "=0.3.34"

[dev-dependencies]
tempfile = "=3.27.0"
