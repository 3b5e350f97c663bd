[package]
name = "robots"
version = "0.1.0"
edition = "2021"
publish = false

[dependencies]
url = "2"
percent-encoding = "2"
reqwest = { version = "0.12", default-features = false, features = ["blocking"] }
