[package]
name = "page_crawler"
version = "0.1.0"
edition = "2021"
publish = false

[dependencies]
futures = "0.3"
lazy-regex = "3"
rand = "0.8"
reqwest = { version = "0.12", default-features = false, features = ["rustls-tls"] }
scraper = "*"
serde = { version = "1", features = ["derive"] }
serde_json = "1"
tokio = { version = "1", features = ["macros", "rt-multi-thread", "sync", "time"] }
