[package]
name = "tiled"
version = "0.1.0"
edition = "2021"
publish = false

[dependencies]
quick-xml = "*"
base64 = "*"
flate2 = "*"
zstd = "*"
tokio = { version = "*", features = ["fs", "io-util", "rt"] }
