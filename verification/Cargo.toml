[package]
name = "matcha_watch"
version = "0.1.0"
edition = "2021"
publish = false

[dependencies]
dashmap = { version = "6", features = ["serde"] }
scraper = "*"
serde_json = "1"
poise = "0.6"
reqwest = "0.12"
tokio = { version = "1", features = ["full"] }
tracing = "0.1"
tracing-subscriber = "0.3"
