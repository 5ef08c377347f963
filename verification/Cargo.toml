[package]
name = "kirafan_newsbot_rust"
version = "0.1.0"
edition = "2021"
publish = false

[dependencies]
regex = "1"
scraper = "*"
twitter-text = "*"
twitter_text_config = "*"
reqwest = { version = "0.12", default-features = false, features = ["rustls-tls"] }
tokio = { version = "1", features = ["full"] }
futures = "0.3"
kuon = "*"
