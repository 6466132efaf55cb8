[package]
name = "lobby"
version = "0.1.0"
edition = "2021"
publish = false

[dependencies]
md5 = "0.7"
tokio = { version = "1", features = ["rt-multi-thread", "macros", "net", "io-util"] }
color-eyre = "0.6"
