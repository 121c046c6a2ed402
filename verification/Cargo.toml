[package]
name = "clipboard_watcher"
version = "0.1.0"
edition = "2021"
publish = false

[dependencies]
anyhow = "1"
arboard = "*"
bon = "*"
crossterm = "*"
derive_more = { version = "*", features = ["deref"] }
ratatui = "*"
regex = "1"
serde = { version = "1", features = ["derive"] }
toml = "*"
walkdir = "2"
