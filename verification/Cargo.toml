[package]
name = "codex_core"
version = "0.1.0"
edition = "2021"
publish = false

[dependencies]
serde_json = "1"
toml = "*"
tokio = { version = "1", default-features = false, features = ["fs"] }
tracing = "0.1"
