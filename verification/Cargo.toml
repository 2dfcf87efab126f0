[package]
name = "larkriver"
version = "0.1.0"
edition = "2021"
publish = false

[dependencies]
anyhow = "=1.0.104"
arc-swap = "=1.9.3"
async-openai = { version = "=0.28.3", default-features = false, features = ["rustls"] }
axum = "=0.8.9"
fastrand = "=2.5.0"
foldhash = "=0.2.0"
hashbrown = "=0.17.1"
itertools = "=0.14.0"
parking_lot = "=0.12.5"
rand = "=0.9.5"
redb = "=3.1.3"
reqwest = { version = "=0.12.28", default-features = false, features = ["json", "rustls-tls"] }
serde = { version = "=1.0.229", features = ["derive"] }
serde_json = "=1.0.154"
smallvec = "=2.0.0-alpha.11"
sonic-rs = "=0.5.10"
tokio = { version = "=1.54.1", features = ["macros", "net", "rt-multi-thread", "sync", "time"] }
tracing = "=0.1.44"
tracing-subscriber = { version = "0.3", features = ["env-filter"] }
uuid = { version = "=1.29.0", features = ["v4"] }
