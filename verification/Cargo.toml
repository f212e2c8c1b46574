[package]
name = "vaultcraft"
version = "0.1.0"
edition = "2021"
publish = false

[dependencies]
zip = "*"
sha2 = "*"
hex = "*"
uuid = { version = "*", features = ["v4"] }
chrono = "*"
