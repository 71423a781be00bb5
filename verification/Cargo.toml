[package]
name = "taplo"
version = "0.1.0"
edition = "2021"
publish = false

[dependencies]
chrono = { version = "0.4", default-features = false, features = ["std"] }
time = "0.2"
indexmap = "1.9"
rowan = "0.10"
lsp-types = "0.93"
serde = { version = "1", features = ["derive"] }
serde_json = "1"
futures = "0.3"
async-trait = "0.1"
