[package]
name = "lunch_search"
version = "0.1.0"
edition = "2021"
publish = false

[dependencies]
tantivy = "=0.26.2"
chrono = "=0.4.45"
serde = { version = "=1.0.229", features = ["derive"] }
serde_json = "=1.0.151"
reqwest = { version = "=0.12.28", default-features = false, features = ["rustls-tls", "json"] }
reqwest-middleware = "=0.4.2"
http-cache-reqwest = "=0.16.0"
http-cache-quickcache = "=0.9.0"
serenity = "=0.12.5"
tokio = { version = "=1.53.2", features = ["rt-multi-thread", "macros"] }
dotenvy = "=0.15.7"
