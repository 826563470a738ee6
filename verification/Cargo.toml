[package]
name = "shader_studio"
version = "0.1.0"
edition = "2021"
publish = false

[dependencies]
serde = { version = "1", features = ["derive"] }
serde_json = "1"
serde_yaml = "0.9"
toml = "0.8"
walkdir = "2"
thiserror = "1"
anyhow = "1"
lru = "0.12"
