[package]
name = "nin"
version = "0.1.0"
edition = "2021"
publish = false

[dependencies]
device_query = "*"
enigo = "*"
