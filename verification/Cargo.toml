[package]
name = "hasskey"
version = "0.1.0"
edition = "2021"
publish = false

[dependencies]
anyhow = "1"
clap = { version = "4", features = ["derive"] }
evdev = { version = "0.12", features = ["tokio"] }
futures = "0.3"
regex = "1"
reqwest = { version = "0.12", default-features = false, features = ["json"] }
serde = { version = "1", features = ["derive"] }
serde_with = "3"
serde_yaml = "0.9"
tokio = { version = "1", features = ["full"] }
tokio-udev = "0.9"
tracing = { version = "0.1", features = ["log"] }
tracing-subscriber = "0.3"
url = { version = "2", features = ["serde"] }
