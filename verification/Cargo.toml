[package]
name = "tokio-s7"
version = "0.1.0"
edition = "2021"
publish = false

[dependencies]
tokio-util = { version = "0.7", features = ["codec"] }
tokio = { version = "1", features = ["net", "io-util", "sync", "time", "rt", "macros"] }
log = "0.4"
thiserror = "2"
