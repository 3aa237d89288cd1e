[package]
name = "epub_rs"
version = "0.1.0"
edition = "2021"
publish = false

[dependencies]
xml-rs = "*"
zip = { version = "0.6", default-features = false, features = ["deflate"] }
