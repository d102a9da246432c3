[package]
name = "rapid_driver"
version = "0.1.0"
edition = "2021"
publish = false

[dependencies]
axum = "=0.8.9"
base64 = "=0.22.1"
bytes = "=1.12.1"
chrono = "=0.4.45"
clap = { version = "=4.6.7", features = ["derive"] }
crossterm = "=0.28.1"
dirs = "=6.0.0"
mcap = "=0.26.0"
mdns-sd = "=0.13.11"
nix = { version = "=0.29.0", features = ["poll", "signal", "fs"] }
ratatui = "=0.29.0"
rmpv = "=1.3.1"
serde = { version = "=1.0.229", features = ["derive"] }
serde_json = "=1.0.154"
tokio = { version = "=1.54.1", features = ["full"] }
toml = "=0.8.23"
tower-http = { version = "=0.6.11", features = ["cors"] }
udev = "=0.9.3"
uuid = { version = "=1.29.0", features = ["v4"] }
zeromq = "=0.4.1"
