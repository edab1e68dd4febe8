[package]
name = "toku"
version = "0.1.0"
edition = "2021"
publish = false

[dependencies]
bytes = "*"
bytesize = "*"
futures = "*"
tokio = { version = "*", features = ["full"] }
tokio-util = { version = "*", features = ["codec"] }
