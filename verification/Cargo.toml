[package]
name = "devsql"
version = "0.1.0"
edition = "2021"
publish = false

[dependencies]
chrono = "=0.4.45"
regex = "=1.13.1"
tree-sitter = "=0.27.1"
tree-sitter-rust = "=0.24.2"
tree-sitter-typescript = "=0.23.2"
tree-sitter-javascript = "=0.25.0"
tree-sitter-python = "=0.25.0"
tree-sitter-go = "=0.25.0"
serde_json = "=1.0.154"
walkdir = "=2.5.0"
async-trait = "=0.1.92"
futures = "=0.3.34"
gluesql = { version = "=0.19.0", default-features = false }
gluesql-json-storage = "=0.19.0"
rusqlite = { version = "=0.41.1", features = ["bundled"] }
git2 = { version = "=0.21.0", default-features = false }
