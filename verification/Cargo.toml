[package]
name = "card_copilot"
version = "0.1.0"
edition = "2021"
publish = false

[dependencies]
tiktoken-rs = "*"
serde_json = "*"
base64 = "*"
