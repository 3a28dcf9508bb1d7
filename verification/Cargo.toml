[package]
name = "garden_butler"
version = "0.1.0"
edition = "2021"
publish = false

[dependencies]
chrono = "0.4"
tokio = { version = "1", features = ["rt-multi-thread", "macros", "signal", "sync", "time"] }
futures = "0.3"
serde = { version = "1", features = ["derive"] }
serde_json = "1"
config = "*"
rumqtt = "*"
sysfs_gpio = "*"
crossbeam = "*"
