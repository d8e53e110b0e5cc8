[package]
name = "oriac"
version = "0.1.0"
edition = "2021"
publish = false

[dependencies]
num-bigint = "*"
hex = "*"
clap = { version = "*", features = ["derive"] }
serde = { version = "*", features = ["derive"] }
serde_json = "*"
thiserror = "*"
