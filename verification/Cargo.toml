[package]
name = "manga_core"
version = "0.1.0"
edition = "2021"
publish = false

[dependencies]
scraper = "=0.29.0"
regex = "=1.13.1"
serde = { version = "=1.0.229", features = ["derive"] }
serde_json = "=1.0.154"
reqwest = { version = "=0.12.28", default-features = false, features = ["rustls-tls", "blocking"] }
thiserror = "=2.0.21"
git2 = { version = "=0.21.0", default-features = false }
