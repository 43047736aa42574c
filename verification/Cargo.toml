[package]
name = "switcher_rust"
version = "0.1.0"
edition = "2021"
publish = false

[dependencies]
hex = "*"
crc = "*"
serde = { version = "*", features = ["derive"] }
serde_json = "*"
tokio = { version = "*", features = ["rt-multi-thread", "net", "time", "io-util", "macros"] }
clap = { version = "*", features = ["derive"] }
