[package]
name = "heat_room"
version = "0.1.0"
edition = "2021"
publish = false

[dependencies]
bytemuck = { version = "1", features = ["derive"] }
env_logger = "0.11"
glam = "0.29"
pollster = "0.4"
wgpu = "23"
winit = "0.30"
