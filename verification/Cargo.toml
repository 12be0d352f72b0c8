[package]
name = "wsocks"
version = "0.1.0"
edition = "2021"
publish = false

[dependencies]
byteorder = "*"
axum = { version = "*", features = ["ws"] }
tokio = { version = "*", features = ["net", "io-util"] }
futures = "*"
pin-project = "*"
