[package]
name = "docz"
version = "0.1.0"
edition = "2021"
publish = false

[dependencies]
comrak = "=0.55.0"
typed-arena = "*"
html_parser = "=0.7.0"
serde_yaml = "=0.9.34"
slug = "=0.1.6"
serde = { version = "=1.0.229", features = ["derive"] }
serde_json = "=1.0.151"
toml = "=1.1.6"
clap = { version = "=4.6.7", features = ["derive"] }
anyhow = "=1.0.104"
epub-builder = "=0.8.3"
