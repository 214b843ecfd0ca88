[package]
name = "aixker-rlt"
version = "0.1.0"
edition = "2021"
publish = false

[dependencies]
rand = "=0.8.8"
serde = { version = "=1.0.229", features = ["derive"] }
serde_json = "=1.0.154"
anyhow = "=1.0.104"
log = "=0.4.35"
env_logger = "=0.11.11"
ndarray = { version = "=0.16.1", features = ["serde"] }
ndarray-rand = "=0.15.0"
tokio = { version = "=1.54.1", features = ["rt-multi-thread", "macros", "time"] }
csv = "=1.4.0"
color-eyre = "=0.6.5"
crossterm = "=0.29.0"
ratatui = "=0.30.2"
wgpu = "=27.0.1"
pollster = "=1.0.1"
