[package]
name = "serbuffer"
version = "0.1.0"
edition = "2021"
publish = false

[dependencies]
bytes = "1"

[dev-dependencies]
uuid = { version = "1", features = ["v4"] }
