[package]
name = "lora_e5"
version = "0.1.0"
edition = "2021"
publish = false

[dependencies]
hex = "0.4"
serialport = { version = "4", default-features = false }
tokio = { version = "1", features = ["rt", "macros", "sync", "time"] }
clap = { version = "4", features = ["derive"] }
thiserror = "1"
