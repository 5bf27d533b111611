[package]
name = "worlds"
version = "0.1.0"
edition = "2021"
publish = false

[dependencies]
image = { version = "0.25", default-features = false, features = ["png"] }
noise = { version = "0.9", default-features = false }
rand = "0.8"
serde = { version = "1", features = ["derive"] }
toml = "0.8"
