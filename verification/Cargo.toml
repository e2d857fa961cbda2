[package]
name = "iris"
version = "0.1.0"
edition = "2021"
publish = false

[dependencies]
egui = "0.29"
winit = "0.30"
parking_lot = "0.12"
rfd = "0.15"
toml = "0.8"
serde = { version = "1", features = ["derive"] }
