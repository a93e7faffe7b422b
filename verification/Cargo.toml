[package]
name = "herdr_auto_update"
version = "1.0.8"
edition = "2021"
publish = false

[dependencies]
serde = { version = "1", features = ["derive"] }
serde_json = "1"
toml = "0.8"
