[package]
name = "kv_explorer"
version = "0.1.0"
edition = "2021"
publish = false

[dependencies]
serde_json = "1"
rmp-serde = "1"
tikv-client = "*"
futures = "0.3"
