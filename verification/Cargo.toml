[package]
name = "engine3d"
version = "0.1.0"
edition = "2021"
publish = false

[dependencies]
cgmath = "0.18"
env_logger = "0.9"
rand = "0.8"
rodio = { version = "0.14", default-features = false, features = ["vorbis"] }
serde = { version = "1", features = ["derive"] }
serde_json = "1"
winit = "0.25"
