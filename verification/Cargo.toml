[package]
name = "blog_gen"
version = "0.1.0"
edition = "2021"
publish = false

[dependencies]
anyhow = "1"
chrono = { version = "0.4", features = ["serde"] }
comrak = { version = "0.20", default-features = false, features = ["syntect"] }
lazy_static = "1"
serde = { version = "1", features = ["derive"] }
serde_yaml = "0.9"
syntect = "5"
tera = "1"
tree-sitter = "0.20"
tree-sitter-highlight = "0.20"
tree-sitter-loader = "0.20"
