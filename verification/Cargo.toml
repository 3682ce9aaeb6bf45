[package]
name = "opencli-rs"
version = "0.1.0"
edition = "2021"
publish = false

[dependencies]
uuid = { version = "1", features = ["v4"] }
serde = { version = "1", features = ["derive"] }
serde_json = "1"
serde_yaml = "0.9"
tokio = { version = "1", features = ["time", "process", "rt", "macros"] }
reqwest = { version = "0.12", default-features = false, features = ["json"] }
