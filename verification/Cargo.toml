[package]
name = "keyhook"
version = "0.1.0"
edition = "2021"
publish = false

[dependencies]
inputbot = "=0.6.0"
once_cell = "=1.21.4"
serde = { version = "=1.0.229", features = ["derive"] }
winapi = { version = "=0.3.9", features = ["winuser"] }
