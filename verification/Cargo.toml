[package]
name = "riffle"
version = "0.1.0"
edition = "2021"
publish = false

[dependencies]
anyhow = "1"
arrow = { version = "=58.4.1", default-features = false }
async-stream = "0.3"
axum = "=0.7.9"
azure_identity = "=1.0.0"
azure_messaging_eventhubs = "=0.15.0"
chrono = "=0.4.45"
clap = { version = "4", features = ["derive", "env"] }
futures = "0.3"
object_store = { version = "0.13", default-features = false }
rand = "=0.8.8"
serde = { version = "1", features = ["derive"] }
serde_json = "=1.0.154"
tokio = { version = "1", features = ["full"] }
tokio-stream = "0.1"
tracing = "0.1"
tracing-subscriber = { version = "0.3", features = ["env-filter"] }
url = "=2.5.8"
uuid = { version = "=1.29.0", features = ["v4"] }
