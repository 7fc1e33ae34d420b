[package]
name = "mzdata"
version = "0.1.0"
edition = "2021"
publish = false

[dependencies]
flate2 = "1"
log = "0.4"
mzpeaks = "*"
quick-xml = { version = "0.30", features = ["async-tokio"] }
regex = "1"
tokio = { version = "1", features = ["fs", "io-util", "rt"] }
