[package]
name = "authrust"
version = "0.1.0"
edition = "2021"
publish = false

[dependencies]
argon2 = "0.5"
uuid = { version = "1", features = ["v4"] }
