[package]
name = "tts_bot"
version = "0.1.0"
edition = "2021"
publish = false

[dependencies]
anyhow = "1"
axum = { version = "*", features = ["ws"] }
clap = { version = "*", features = ["cargo"] }
env_logger = "*"
futures = "0.3"
log = "0.4"
rand = "0.8"
reqwest = { version = "*", default-features = false, features = ["stream"] }
rusty-leveldb = "*"
serde = { version = "1", features = ["derive"] }
serde_json = "1"
symphonia = "*"
tokio = { version = "1", features = ["full"] }
toml = "*"
xxhash-rust = { version = "*", features = ["xxh3"] }
