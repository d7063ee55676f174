[package]
name = "lite_tls"
version = "0.1.0"
edition = "2021"
publish = false

[dependencies]
sha2 = "*"
tokio = { version = "*", features = ["net", "io-util", "time", "sync", "rt", "macros"] }
