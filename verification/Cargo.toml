[package]
name = "jinja_rs"
version = "0.1.0"
edition = "2021"
publish = false

[dependencies]
rhai = { version = "=1.26.1", features = ["sync"] }
minijinja = "=2.24.0"
nanoid = "=0.5.0"
clap = { version = "=4.6.7", features = ["derive"] }
serde = { version = "=1.0.229", features = ["derive"] }
serde_yaml = "=0.9.34"
anyhow = "=1.0.104"
