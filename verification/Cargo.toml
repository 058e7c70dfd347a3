[package]
name = "peroxide"
version = "0.1.0"
edition = "2021"
publish = false

[dependencies]
sha2 = "0.10"
uuid = { version = "1", features = ["v4"] }
tiny_http = "0.12"
serde = { version = "1", features = ["derive"] }
serde_json = "1"
