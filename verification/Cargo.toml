[package]
name = "css2mp4-core"
version = "0.1.0"
edition = "2021"
publish = false

[dependencies]
serde_json = "1"
dunce = "1"
url = "2"
serde = { version = "1", features = ["derive"] }
anyhow = "1"
thiserror = "1"
clap = { version = "4", features = ["derive"] }
indicatif = "0.17"
tokio = { version = "1", features = ["full"] }
tokio-stream = { version = "0.1", features = ["sync"] }
tokio-util = { version = "0.7", features = ["io"] }
axum = "0.7"
tower-http = { version = "0.5", features = ["cors"] }
uuid = { version = "1", features = ["v4"] }
tempfile = "3"
futures = "0.3"
chromiumoxide = "0.7"
