[package]
name = "deltax2"
version = "0.1.0"
edition = "2021"
publish = false

[dependencies]
anyhow = "1"
serde = { version = "1", features = ["derive"] }
serialport = { version = "4", default-features = false }
toml = "*"
