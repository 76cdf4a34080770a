[package]
name = "modit"
version = "0.1.0"
edition = "2021"
publish = false

[dependencies]
uuid = "1"
anyhow = "1"
log = "0.4"
pretty_env_logger = "0.5"
rand = { version = "0.9", features = ["small_rng"] }
tokio = { version = "1", features = ["rt-multi-thread", "macros", "sync", "time", "io-std", "io-util"] }
postcard = { version = "1", features = ["use-std"] }
serde = "1"
serde_derive = "1"
futures = "0.3"
btleplug = "0.11"
