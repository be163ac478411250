[package]
name = "strew"
version = "0.1.0"
edition = "2021"
publish = false

[dependencies]
anyhow = "*"
clap = { version = "*", features = ["derive"] }
confy = "*"
serde = { version = "*", features = ["derive"] }
shellexpand = "*"

[dev-dependencies]
tempfile = "*"
