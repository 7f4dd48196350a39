[package]
name = "motorctl"
version = "0.1.0"
edition = "2021"
publish = false

[dependencies]
tokio = { version = "1", features = ["rt-multi-thread", "sync", "time", "io-util", "macros"] }
tokio-serial = "5"
