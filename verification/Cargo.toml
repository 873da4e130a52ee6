[package]
name = "hash_join"
version = "0.1.0"
edition = "2021"
publish = false

[dependencies]
tempfile = "3"
strum = { version = "*", features = ["derive"] }
serde = { version = "1", features = ["derive"] }
indexmap = "2"
rand = "0.9"
libloading = "*"
