[package]
name = "gbcache"
version = "0.1.0"
edition = "2021"
publish = false

[dependencies]
dashmap = { version = "5", features = ["raw-api"] }
left-right = "0.11"
tokio = { version = "1", features = ["full"] }
rand = "0.8"
lazy_static = "1"
