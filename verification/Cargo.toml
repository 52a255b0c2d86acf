[package]
name = "webroute"
version = "0.1.0"
edition = "2021"
publish = false

[dependencies]
hyper = { version = "0.9", default-features = false }
unicase = "1"
rustc-serialize = "0.3"
cookie = { version = "0.2", default-features = false }
openssl = "0.7"
