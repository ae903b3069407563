[package]
name = "adaptive_gain"
version = "0.1.0"
edition = "2021"
publish = false

[dependencies]
anyhow = "1"
cpal = "*"
hound = "*"
reqwest = { version = "*", default-features = false, features = ["blocking", "json"] }
rodio = "*"
serde_json = "1"
