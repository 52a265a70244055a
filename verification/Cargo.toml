[package]
name = "logtail"
version = "0.1.0"
edition = "2021"
publish = false

[dependencies]
anyhow = "1"
clap = { version = "4", features = ["derive"] }
inline_colorization = "*"
parse_datetime = "*"
serde = { version = "1", features = ["derive"] }
serde_yaml = "0.9"
strip-ansi-escapes = "0.2"
tokio = { version = "1", features = ["rt-multi-thread", "macros", "process", "io-util", "time"] }
tokio-stream = { version = "0.1", features = ["io-util"] }
