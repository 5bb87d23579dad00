[package]
name = "cowlang"
version = "0.1.0"
edition = "2021"
publish = false

[dependencies]
anyhow = "=1.0.104"
clap = { version = "=4.6.7", features = ["derive"] }
crossterm = { version = "=0.29.0", features = ["event-stream"] }
futures = "=0.3.34"
oneshot = { version = "=0.2.1", features = ["std"] }
ratatui = "=0.30.2"
tokio = { version = "=1.53.2", features = ["full"] }
