[package]
name = "git-notes"
version = "0.1.0"
edition = "2021"
publish = false

[dependencies]
serde_json = "1"
tokio = { version = "1", features = ["full"] }
tower-lsp = "0.20"
zed_extension_api = "*"
