[package]
name = "orbit_protocol"
version = "0.1.0"
edition = "2021"
publish = false

[dependencies]
libc = "0.2"
serde = { version = "=1.0.229", features = ["derive"] }
serde_json = "=1.0.154"
