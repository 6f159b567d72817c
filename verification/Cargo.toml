[package]
name = "nexus_core"
version = "0.1.0"
edition = "2021"
publish = false

[dependencies]
ropey = { version = "*", default-features = false }
anyhow = "*"
serde = { version = "*", features = ["derive"] }
toml = "*"
dirs = "*"
log = "*"
env_logger = "*"
tree-sitter = "*"
