[package]
name = "soccer_tool"
version = "0.1.0"
edition = "2021"
publish = false

[dependencies]
egui = "=0.27.2"
egui_plot = "=0.27.2"
image = { version = "=0.24.9", default-features = false, features = ["png"] }
rand = "0.8"
serde = { version = "1", features = ["derive"] }
serde_json = "1"
serialport = { version = "4", default-features = false }
chrono = { version = "0.4", default-features = false, features = ["clock"] }
