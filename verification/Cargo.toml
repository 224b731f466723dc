[package]
name = "jport"
version = "0.1.0"
edition = "2021"
publish = false

[dependencies]
smallvec = "*"
zip = { version = "*", default-features = false, features = ["deflate"] }
