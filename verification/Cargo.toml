[package]
name = "ncli"
version = "0.1.0"
edition = "2021"
publish = false

[dependencies]
anyhow = "*"
chrono = "*"
clap = { version = "3", features = ["derive"] }
config = "*"
env_logger = "*"
fantoccini = "*"
log = "*"
scraper = "*"
serde = { version = "*", features = ["derive"] }
serde_json = "*"
tokio = { version = "*", features = ["rt"] }
toml = "*"
zip-extract = "*"
