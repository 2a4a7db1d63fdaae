[package]
name = "jdbg_core"
version = "0.1.0"
edition = "2021"
publish = false

[dependencies]
anyhow = "*"
clap = { version = "*", features = ["derive"] }
clap_complete = "*"
colored = "*"
dirs = "*"
libc = "*"
serde = { version = "*", features = ["derive"] }
serde_json = "*"
toml = "*"
