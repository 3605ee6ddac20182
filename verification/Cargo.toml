[package]
name = "vm_curator"
version = "0.1.0"
edition = "2021"
publish = false

[dependencies]
anyhow = "1"
dirs = "*"
regex = "1"
rusb = "*"
serde = { version = "1", features = ["derive"] }
serde_json = "1"
toml = "*"
