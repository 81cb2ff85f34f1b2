[package]
name = "rendezvous"
version = "0.1.0"
edition = "2021"
publish = false

[dependencies]
rand = "*"
tokio = { version = "*", features = ["sync", "net", "io-util", "rt-multi-thread", "macros", "time"] }
