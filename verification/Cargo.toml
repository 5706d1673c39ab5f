[package]
name = "kanjidamage"
version = "0.1.0"
edition = "2021"
publish = false

[dependencies]
scraper = "*"
ego-tree = "*"
serde_json = "1"
serde = { version = "1", features = ["derive"] }
rand = "0.8"
reqwest = { version = "*", default-features = false, features = ["blocking", "rustls-tls"] }
