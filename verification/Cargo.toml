[package]
name = "yarn_runner"
version = "0.1.0"
edition = "2021"
publish = false

[dependencies]
serde_json = "=1.0.151"
rand = "=0.8.8"
