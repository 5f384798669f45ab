[package]
name = "panther"
version = "0.1.0"
edition = "2021"
publish = false

[dependencies]
serde_json = "1"
reqwest = "0.12"
tokio = { version = "1", features = ["fs", "io-util", "macros", "rt-multi-thread"] }
