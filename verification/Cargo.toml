[package]
name = "grm"
version = "0.1.0"
edition = "2021"
publish = false

[dependencies]
clap = "3"
shellexpand = "*"
toml = "*"
serde = { version = "*", features = ["derive"] }
