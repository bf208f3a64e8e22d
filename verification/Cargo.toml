[package]
name = "rtk"
version = "0.1.0"
edition = "2021"
publish = false

[dependencies]
anyhow = "1"
chrono = "0.4"
dirs = "5"
serde_json = "1"
toml = "0.8"
