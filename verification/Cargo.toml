[package]
name = "jarvis_meters"
version = "0.1.0"
edition = "2021"
publish = false

[dependencies]
uuid = { version = "*", features = ["v4", "v7"] }
chrono = "*"
serde = { version = "*", features = ["derive"] }
serde_yaml = "*"
serialport = { version = "*", default-features = false }
modbus = "*"
