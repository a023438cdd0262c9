[package]
name = "aggreg"
version = "1.0.0"
edition = "2021"
publish = false

[dependencies]
clap = "=2.34.0"
futures = "=0.3.34"
isahc = "=1.8.3"
linked-hash-map = "=0.5.6"
scraper = "=0.29.0"
serde = { version = "=1.0.229", features = ["derive"] }
serde_json = "=1.0.154"
yaml-rust = "=0.4.5"
