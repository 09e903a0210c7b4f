[package]
name = "grapevined"
version = "0.1.0"
edition = "2021"
publish = false

[dependencies]
crossbeam = "*"
dirs = "*"
rodio = "*"
serde = { version = "*", features = ["derive"] }
serde_json = "*"
tracing = "*"
tracing-appender = "*"
tracing-subscriber = "*"
