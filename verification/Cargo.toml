[package]
name = "yarn_autocompletions"
version = "0.1.0"
edition = "2021"
publish = false

[dependencies]
async-std = "*"
dirs = "*"
serde = { version = "*", features = ["derive"] }
serde_json = "*"
serde_yaml = "*"
