[package]
name = "world_compiler"
version = "0.1.0"
edition = "2021"
publish = false

[dependencies]
image = "*"
serde = { version = "1", features = ["derive"] }
ron = "*"
toml = "*"
bincode = "1"
