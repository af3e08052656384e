[package]
name = "bookparsers"
version = "0.1.0"
edition = "2021"
publish = false

[dependencies]
rand = "=0.8.8"
regex = "=1.13.1"
parking_lot = "=0.12.5"
chrono = { version = "=0.4.45", default-features = false, features = ["clock", "std"] }
reqwest = { version = "=0.12.28", default-features = false }
serde_json = "=1.0.154"
flate2 = "1"
scraper = "*"
uuid = { version = "1", features = ["v4"] }
