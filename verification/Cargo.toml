[package]
name = "agentrt"
version = "0.1.0"
edition = "2021"
publish = false

[dependencies]
anyhow = "1"
async-trait = "0.1"
chrono = "0.4"
clap = { version = "4", features = ["derive"] }
meval = "0.2"
opentelemetry = "0.18"
prometheus = "0.13"
rand = "0.8"
reqwest = { version = "0.11", default-features = false, features = ["blocking"] }
serde = { version = "1", features = ["derive"] }
serde_json = "1"
thiserror = "1"
tokio = { version = "1", features = ["macros", "rt-multi-thread", "time", "sync", "fs"] }
tokio-stream = "0.1"
tracing = "0.1"
tracing-subscriber = "0.3"
