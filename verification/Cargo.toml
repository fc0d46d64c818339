[package]
name = "bilibili-api-rs"
version = "0.1.0"
edition = "2021"
publish = false

[dependencies]
anyhow = "=1.0.104"
chrono = "=0.4.45"
im = "=15.1.0"
lazy_static = "=1.5.1"
log = "=0.4.35"
md5 = "=0.7.0"
murmur3 = "=0.5.2"
regex = "=1.13.1"
reqwest = { version = "=0.12.28", default-features = false, features = ["json", "rustls-tls"] }
rpds = "=1.2.1"
serde = { version = "=1.0.229", features = ["derive"] }
serde_json = "=1.0.154"
tokio = { version = "=1.54.1", features = ["sync", "rt", "rt-multi-thread", "macros"] }
uuid = { version = "=1.29.1", features = ["v1", "std", "rng"] }
