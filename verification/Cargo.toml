[package]
name = "leptos_language_server"
version = "0.1.0"
edition = "2021"
publish = false

[dependencies]
ropey = { version = "1", default-features = false }
dashmap = "5"
lsp-types = "0.95"
lsp-server = "0.7"
serde = "1"
serde_json = "1"
syn = { version = "2", features = ["full"] }
leptosfmt-formatter = "*"
