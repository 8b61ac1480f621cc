[package]
name = "powerroam"
version = "0.1.0"
edition = "2021"
publish = false

[dependencies]
anyhow = "*"
btleplug = "*"
clap = { version = "*", features = ["derive"] }
futures = "*"
prometheus = "*"
prometheus_exporter = "*"
strum = { version = "*", features = ["derive"] }
tokio = { version = "*", features = ["rt", "macros"] }

[dev-dependencies]
crc16 = "*"
