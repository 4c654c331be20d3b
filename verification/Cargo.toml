[package]
name = "judgeman"
version = "0.1.0"
edition = "2021"
publish = false

[dependencies]
base64 = "0.22"
scraper = "*"
reqwest = { version = "*", features = ["blocking"] }
