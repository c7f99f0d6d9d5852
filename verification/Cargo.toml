[package]
name = "git_review"
version = "0.1.0"
edition = "2021"
publish = false

[dependencies]
tree-sitter-highlight = "*"
tree-sitter = "*"
ratatui = "*"
crossterm = "*"
clap = { version = "4", features = ["derive"] }
eyre = "*"
git2 = { version = "*", default-features = false }
tracing = "*"
tracing-subscriber = { version = "*", features = ["env-filter"] }
dirs = "*"
libloading = "*"
