[package]
name = "tfls_lsp"
version = "0.1.0"
edition = "2021"
publish = false

[dependencies]
ropey = "1"
similar = "2"
url = "2"
rustc-hash = "2"
hcl-edit = "*"
lsp-types = "0.95"
sonic-rs = "*"
dashmap = "*"
serde = { version = "1", features = ["derive"] }
serde_json = "1"
tokio = { version = "1", features = ["process", "time", "rt", "macros"] }
