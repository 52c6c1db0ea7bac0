[package]
name = "orbital_viewer"
version = "0.1.0"
edition = "2021"
publish = false

[dependencies]
anyhow = "1"
bytemuck = { version = "1", features = ["derive"] }
cgmath = "0.18"
futures-channel = "0.3"
wgpu = "*"
winit = "0.30"
