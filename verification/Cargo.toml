[package]
name = "btc_lib"
version = "0.1.0"
edition = "2021"
publish = false

[dependencies]
serde = { version = "=1.0.229", features = ["derive"] }
sha256 = { version = "=1.6.0", default-features = false }
uuid = { version = "=1.29.0", features = ["v4", "serde"] }
