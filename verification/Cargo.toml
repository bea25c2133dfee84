[package]
name = "gardening"
version = "0.1.0"
edition = "2021"
publish = false

[dependencies]
sfml = { version = "*", features = ["graphics"] }
