[package]
name = "httpy"
version = "0.1.0"
edition = "2021"
publish = false

[dependencies]
tokio = { version = "1", features = ["net", "rt-multi-thread", "macros", "time", "io-util"] }
