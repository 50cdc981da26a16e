[package]
name = "git-anatomy"
version = "0.1.0"
edition = "2021"
publish = false

[dependencies]
tree-sitter = "=0.25.10"
tree-sitter-rust = "=0.24.2"
tree-sitter-javascript = "=0.23.1"
tree-sitter-typescript = "=0.23.2"
tree-sitter-python = "=0.23.6"
tree-sitter-go = "=0.23.4"
tree-sitter-java = "=0.23.5"
tree-sitter-c = "=0.24.2"
tree-sitter-cpp = "0.23"
anyhow = "=1.0.104"
chrono = "=0.4.45"
clap = { version = "=4.6.7", features = ["derive"] }
colored = "=2.2.0"
crossterm = "=0.28.1"
git2 = { version = "=0.20.4", default-features = false }
indicatif = "=0.17.11"
ratatui = "=0.29.0"
rusqlite = { version = "=0.32.1", features = ["bundled"] }
tracing = "=0.1.44"
tracing-subscriber = { version = "=0.3.23", features = ["env-filter"] }
