[package]
name = "audiobookbay"
version = "0.1.0"
edition = "2021"
publish = false

[dependencies]
anyhow = "1"
base64 = "0.22"
clap = { version = "4", features = ["derive", "env"] }
dirs = "6"
reqwest = { version = "0.12", default-features = false, features = ["blocking", "charset", "cookies", "http2", "rustls-tls", "socks"] }
scraper = "0.23"
serde = { version = "1", features = ["derive"] }
toml = "0.8"
