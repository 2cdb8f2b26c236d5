[package]
name = "yuga"
version = "0.1.0"
edition = "2021"
publish = false

[dependencies]
comrak = { version = "*", default-features = false }
serde = { version = "*", features = ["derive"] }
toml = "*"
