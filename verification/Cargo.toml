[package]
name = "cas_client"
version = "0.1.0"
edition = "2021"
publish = false

[dependencies]
bytes = "*"
sha2 = "*"
uuid = { version = "*", features = ["v4"] }
