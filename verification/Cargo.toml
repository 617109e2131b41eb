[package]
name = "wowser"
version = "0.1.0"
edition = "2021"
publish = false

[dependencies]
regex = "1"
fancy-regex = "*"
futures = "0.3"
futures-util = "0.3"
lazy_static = "1"
