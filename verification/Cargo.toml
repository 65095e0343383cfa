[package]
name = "doc2readme"
version = "0.1.0"
edition = "2021"
publish = false

[dependencies]
url = "=2.5.8"
anyhow = "=1.0.104"
cargo_toml = "=1.0.1"
minijinja = "=2.24.0"
scraper = "=0.27.0"
ego-tree = "=0.11.0"
