[package]
name = "hub_be"
version = "0.1.0"
edition = "2021"
publish = false

[dependencies]
rand = "0.9"
uuid = { version = "1", features = ["v4"] }
serde_json = "1"
ammonia = "*"
