[package]
name = "argus-polymarket"
version = "0.1.0"
edition = "2021"
publish = false

[dependencies]
base64 = "=0.22.1"
crossbeam = "=0.8.5"
event-listener = "=5.4.2"
fast-float = "=0.2.0"
flate2 = "=1.1.10"
serde = { version = "=1.0.229", features = ["derive"] }
serde_json = { version = "=1.0.154", features = ["float_roundtrip"] }
uuid = { version = "=1.29.0", features = ["v4"] }
