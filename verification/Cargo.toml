[package]
name = "make87"
version = "0.1.0"
edition = "2021"
publish = false

[dependencies]
zenoh = { version = "=1.10.1", default-features = false, features = ["unstable", "transport_tcp"] }
serde = { version = "=1.0.229", features = ["derive"] }
serde_json = "=1.0.151"
sha2 = "=0.11.0"
