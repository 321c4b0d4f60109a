[package]
name = "yeet"
version = "0.1.0"
edition = "2021"
publish = false

[dependencies]
crossterm = { version = "0.27", features = ["event-stream"] }
csv = "1.3"
dirs = "5"
futures = "0.3"
infer = "0.15"
notify = "6.1"
ratatui = "0.26"
syntect = { version = "5", default-features = false, features = ["default-fancy"] }
tokio = { version = "1", features = ["full"] }
tracing = "0.1"
