[package]
name = "allure_report"
version = "0.1.0"
edition = "2021"
publish = false

[dependencies]
anyhow = "1"
async-trait = "0.1"
bytes = "1"
http = "0.2"
reqwest = { version = "0.11", default-features = false }
reqwest-middleware = "0.2"
serde_json = "1"
similar = "2"
task-local-extensions = "0.1"
tokio = { version = "1", features = ["sync", "fs", "rt", "macros"] }
uuid = { version = "1", features = ["v4"] }
