[package]
name = "lox"
version = "0.1.0"
edition = "2021"
publish = false

[dependencies]
bson = "2"
serde = { version = "1", features = ["derive"] }
