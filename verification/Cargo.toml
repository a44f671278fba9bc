[package]
name = "workhorse"
version = "0.1.0"
edition = "2021"
publish = false

[dependencies]
serde = { version = "1", features = ["derive"] }
serde_json = "1"
tiktoken-rs = "*"
rusqlite = { version = "*", features = ["bundled"] }
figment = { version = "*", features = ["yaml", "env"] }
tokio = { version = "1", features = ["rt-multi-thread", "macros", "process", "io-util", "time", "sync", "fs"] }
async-trait = "*"
anyhow = "1"
thiserror = "*"
tracing = "*"
tracing-subscriber = { version = "*", features = ["env-filter", "json"] }
backoff = "*"
reqwest = { version = "*", default-features = false, features = ["json"] }
