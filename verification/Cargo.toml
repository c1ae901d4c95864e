[package]
name = "minist"
version = "0.1.0"
edition = "2021"
publish = false

[dependencies]
anyhow = "*"
flate2 = "*"
futures-util = "*"
image = { version = "*", default-features = false }
indicatif = "*"
reqwest = { version = "*", default-features = false, features = ["stream"] }
tokio = { version = "*", default-features = false, features = ["rt-multi-thread"] }
