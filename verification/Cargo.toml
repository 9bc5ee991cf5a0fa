[package]
name = "cog_patterns"
version = "0.1.0"
edition = "2021"
publish = false

[dependencies]
indexmap = "2"
parking_lot = "0.12"
serde = { version = "1", features = ["derive"] }

[dev-dependencies]
serde_json = "1"
