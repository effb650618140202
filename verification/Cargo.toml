[package]
name = "cmake_lsp_core"
version = "0.1.0"
edition = "2021"
publish = false

[dependencies]
anyhow = "*"
dashmap = "*"
ignore = "*"
notify = "*"
num_cpus = "*"
regex = "*"
tokio = { version = "*", features = ["macros", "rt", "rt-multi-thread", "sync", "time"] }
tower-lsp = "*"
tracing = "*"
tree-sitter = "*"
