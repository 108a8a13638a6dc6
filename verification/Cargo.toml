[package]
name = "weezterm"
version = "0.1.0"
edition = "2021"
publish = false

[dependencies]
anyhow = "=1.0.104"
log = "=0.4.35"
serde = { version = "=1.0.229", features = ["derive"] }
serde_json = "=1.0.154"
xml-rs = "=0.8.29"
winapi = { version = "0.3", features = ["winuser", "processthreadsapi", "minwindef", "dxgi", "winerror", "unknwnbase"] }
winreg = "0.10"
