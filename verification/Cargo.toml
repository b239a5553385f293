[package]
name = "signaling"
version = "0.1.0"
edition = "2021"
publish = false

[dependencies]
rustc-serialize = "0.3"
bson = "0.14"
ws = "0.9"
