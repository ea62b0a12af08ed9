[package]
name = "site_archiver"
version = "0.1.0"
edition = "2021"
publish = false

[dependencies]
url = "2"
scraper = "*"
chrono = "0.4"
rand = "0.8"
reqwest = { version = "*", default-features = false }
image = "*"
bytes = "1"
tokio = { version = "1", features = ["rt-multi-thread", "macros"] }
dirs = "*"
