[package]
name = "message_registry"
version = "0.1.0"
edition = "2021"
publish = false

[dependencies]
actix-web = "4"
async-stream = "0.3"
futures = "0.3"
rdkafka = "*"
serde = { version = "1", features = ["derive"] }
tokio = { version = "1", features = ["sync", "rt-multi-thread", "macros"] }
