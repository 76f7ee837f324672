[package]
name = "agg_files"
version = "0.1.0"
edition = "2021"
publish = false

[dependencies]
ignore = "*"
walkdir = "*"
serde = { version = "*", features = ["derive"] }
serde_yaml = "*"
