[package]
name = "system_notifier"
version = "0.1.0"
edition = "2021"
publish = false

[dependencies]
merge = "=0.2.0"
notify-rust = "=4.18.2"
serde = { version = "=1.0.229", features = ["derive"] }
toml = "=0.8.23"
sysinfo = "=0.30.13"
battery = "=0.7.8"
