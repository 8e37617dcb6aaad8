[package]
name = "sable"
version = "0.1.0"
edition = "2021"
publish = false

[dependencies]
ariadne = "0.5"
pretty = "0.12"
serde = { version = "1", features = ["derive"] }
serde_json = "1"
smallvec = "1"
