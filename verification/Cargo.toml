[package]
name = "vers_rs"
version = "0.1.0"
edition = "2021"
publish = false

[dependencies]
semver = "1"
percent-encoding = "2"
