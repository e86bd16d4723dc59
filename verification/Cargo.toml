[package]
name = "jetson_watchdog"
version = "0.1.0"
edition = "2021"
publish = false

[dependencies]
regex = "1"
difference = "2"
crossbeam-channel = "0.5"
chrono = "0.4"
daemonize = "*"
serde = { version = "1", features = ["derive"] }
serde_json = "1"
