[package]
name = "cbom"
version = "0.1.0"
edition = "2021"
publish = false

[dependencies]
serde = { version = "1", features = ["derive"] }
serde_json = "1"
tree-sitter = "0.20"
tree-sitter-python = "0.20"
tree-sitter-javascript = "0.20"
tree-sitter-java = "0.20"
tree-sitter-c = "0.20"
tree-sitter-c-sharp = "0.20"
tree-sitter-go = "0.20"
x509-parser = "0.16"
ignore = "0.4"
clap = { version = "4", features = ["derive"] }
ratatui = "0.28"
crossterm = "0.28"
tempfile = "3"
