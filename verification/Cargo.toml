[package]
name = "console_core"
version = "0.1.0"
edition = "2021"
publish = false

[dependencies]
tokio = { version = "1", features = ["sync", "rt", "time", "macros"] }
hdrhistogram = "7"
humantime = "2"
serde = { version = "1", features = ["derive"] }
toml = "*"
dirs = "*"

[dev-dependencies]
futures = "0.3"
