[package]
name = "ios-runner-core"
version = "0.3.0"
edition = "2021"
publish = false

[dependencies]
anyhow = "1"
clap = { version = "4", features = ["derive"] }
dirs = "*"
fs2 = "0.4"
serde = { version = "1", features = ["derive"] }
serde_json = "1"
toml = "*"
walkdir = "2"
zed_extension_api = "*"
