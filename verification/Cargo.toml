[package]
name = "krun"
version = "0.1.0"
edition = "2021"
publish = false

[dependencies]
rustix = { version = "*", features = ["fs"] }
anyhow = "*"

[dev-dependencies]
serde_json = "*"
