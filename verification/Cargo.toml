[package]
name = "x1-mk1-usb2midi"
version = "0.1.0"
edition = "2021"
publish = false

[dependencies]
midir = "0.10"
rusb = "0.9"
serde = { version = "1", features = ["derive"] }
serde_yaml = "0.9"
system_status_bar_macos = "*"
