[package]
name = "openquery_bridge"
version = "0.1.0"
edition = "2021"
publish = false

[dependencies]
keyring = { version = "=3.6.3", default-features = false, features = ["linux-native"] }
uuid = { version = "=1.27.0", features = ["v4"] }
