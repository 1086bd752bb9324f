[package]
name = "questdb_sink"
version = "0.1.0"
edition = "2021"
publish = false

[dependencies]
humantime = "2"
questdb-rs = "7.2"
secrecy = { version = "0.10", features = ["serde"] }
serde = { version = "1", features = ["derive"] }
simd-json = "0.17"
tokio = { version = "1", features = ["rt-multi-thread", "sync"] }
tracing = "0.1"

[dev-dependencies]
toml = "0.9"
