[package]
name = "macbot_core"
version = "0.1.0"
edition = "2021"
publish = false

[dependencies]
dirs = "*"
macos-accessibility-client = "*"

[dev-dependencies]
serde_json = "1"
