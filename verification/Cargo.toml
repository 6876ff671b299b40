[package]
name = "alamofire_kit"
version = "0.1.0"
edition = "2021"
publish = false

[dependencies]
semver = { version = "1", default-features = false, features = ["std"] }
