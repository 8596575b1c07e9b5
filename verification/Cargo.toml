[package]
name = "wb_switch_core"
version = "0.1.0"
edition = "2021"
publish = false

[dependencies]
rusqlite = { version = "0.32", features = ["bundled"] }
serde_json = "1"
uuid = { version = "1", features = ["v4"] }
