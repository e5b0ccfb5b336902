[package]
name = "salt-proxier"
version = "0.1.0"
edition = "2021"
publish = false

[dependencies]
http = "1"
axum = "0.7"
clap = { version = "4", features = ["derive"] }
reqwest = "0.12"
tokio = { version = "1", features = ["full"] }
tower-http = { version = "0.6", features = ["cors"] }
tracing = "0.1"
tracing-subscriber = { version = "0.3", features = ["env-filter"] }
