[package]
name = "onitama"
version = "0.1.0"
edition = "2021"
publish = false

[dependencies]
bevy = { version = "=0.8.1", default-features = false }
colored = "=2.2.0"
rand = "=0.8.8"
serde = { version = "=1.0.229", features = ["derive"] }
