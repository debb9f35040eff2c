[package]
name = "vinyl"
version = "0.1.0"
edition = "2021"
publish = false

[dependencies]
fluent-syntax = "0.12"
blake3 = "1"
serde = { version = "1", features = ["derive"] }
serde_json = "1"
toml = "0.8"
clap = { version = "4", features = ["derive"] }
anyhow = "1"
thiserror = "2"
