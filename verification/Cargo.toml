[package]
name = "flactags"
version = "0.1.0"
edition = "2021"
publish = false

[dependencies]
metaflac = "*"

[dev-dependencies]
regex = "*"
