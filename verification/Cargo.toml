[package]
name = "yummy_indexing_delete"
version = "0.1.0"
edition = "2021"
publish = false

[dependencies]
elasticsearch = { version = "=8.19.0-alpha.1", default-features = false, features = ["rustls-tls"] }
rand = "=0.8.8"
chrono = "=0.4.45"
chrono-tz = "=0.10.4"
tokio = { version = "=1.53.2", features = ["rt-multi-thread", "macros", "sync", "time"] }
serde = { version = "=1.0.229", features = ["derive"] }
serde_json = "=1.0.151"
toml = "=0.8.23"
dotenv = "=0.15.0"
flexi_logger = "=0.31.10"
log = "=0.4.34"
anyhow = "=1.0.104"
