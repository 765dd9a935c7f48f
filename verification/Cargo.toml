[package]
name = "voltage_modbus"
version = "0.4.2"
edition = "2021"
publish = false

[dependencies]
tokio = { version = "1", features = ["net", "time", "io-util", "rt", "sync"] }
tracing = "0.1"
tokio-serial = "5"
