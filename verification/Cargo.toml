[package]
name = "case_scraper"
version = "0.1.0"
edition = "2021"
publish = false

[dependencies]
scraper = "*"
toml = "*"
chrono = "0.4"
lazy_static = "1"
tokio = { version = "1", features = ["macros", "rt-multi-thread"] }
reqwest = { version = "0.11", default-features = false, features = ["rustls-tls"] }
mongodb = { version = "2", features = ["snappy-compression"] }
