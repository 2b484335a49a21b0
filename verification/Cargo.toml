[package]
name = "stock"
version = "0.1.0"
edition = "2021"
publish = false

[dependencies]
colored = "2"
rand = "0.8"
rdkafka = "0.36"
serde = { version = "1", features = ["derive"] }
serde_json = "1"
tokio = { version = "1", features = ["full"] }
