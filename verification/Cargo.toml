[package]
name = "desk_todo"
version = "0.1.0"
edition = "2021"
publish = false

[dependencies]
chrono = "=0.4.45"
serde = { version = "=1.0.229", features = ["derive"] }
serde_json = "=1.0.154"
dirs = "=7.0.0"
eframe = { version = "=0.35.0", default-features = false, features = ["glow", "default_fonts", "x11"] }
eguidev = "=0.1.0"
global-hotkey = "=0.9.0"
tray-icon = { version = "=0.26.1", default-features = false, features = ["ksni"] }
x11rb = "=0.14.0"
