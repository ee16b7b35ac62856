[package]
name = "wrx"
version = "0.1.0"
edition = "2021"
publish = false

[dependencies]
dirs = "*"
clap = "*"
serde = { version = "*", features = ["derive"] }
serde_yaml = "*"
