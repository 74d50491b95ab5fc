[package]
name = "rsoxy"
version = "0.1.0"
edition = "2021"
publish = false

[dependencies]
clap = { version = "*", features = ["derive"] }
serialport = { version = "*", default-features = false }
tokio = { version = "*", features = ["rt", "sync", "time", "macros"] }
