[package]
name = "poem_repo"
version = "0.1.0"
edition = "2021"
publish = false

[dependencies]
anyhow = "=1.0.104"
cang-jie = "=0.13.0"
clap = { version = "=3.2.25", features = ["derive"] }
colored = "=2.2.0"
indicatif = "=0.17.11"
jieba-rs = "=0.6.8"
rand = "=0.8.8"
serde = { version = "=1.0.229", features = ["derive"] }
serde_json = "=1.0.154"
tantivy = "=0.16.1"
