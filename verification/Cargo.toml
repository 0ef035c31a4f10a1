[package]
name = "open_sockets"
version = "0.1.0"
edition = "2021"
publish = false

[dependencies]
procfs = { version = "*", default-features = false }
