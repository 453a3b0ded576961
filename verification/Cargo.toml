[package]
name = "word_of_wisdom"
version = "0.1.0"
edition = "2021"
publish = false

[dependencies]
rust-crypto = "0.2.36"
rand = "0.8"
uuid = { version = "1", features = ["v4"] }
tokio = { version = "1", features = ["net", "io-util", "rt", "rt-multi-thread"] }
