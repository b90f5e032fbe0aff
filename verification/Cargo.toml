[package]
name = "errtools"
version = "0.1.0"
edition = "2021"
publish = false

[dependencies]
serde = "1"

[dev-dependencies]
serde_json = "1"
bincode = "1"
eyre = "0.6"
anyhow = "1"
