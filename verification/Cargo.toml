[package]
name = "rust-box"
version = "0.1.0"
edition = "2021"
publish = false

[dependencies]
base64 = "=0.22.1"
chrono = "=0.4.45"
image = { version = "=0.25.5", default-features = false, features = ["png"] }
processkit = "=3.3.4"
rfd = "=0.17.2"
sysinfo = "=0.37.2"
tokio = { version = "=1.54.1", features = ["full"] }
tray-icon = { version = "=0.26.1", default-features = false, features = ["ksni"] }
winapi = { version = "=0.3.9", features = ["winuser"] }
winit = "=0.30.13"
