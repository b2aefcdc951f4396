[package]
name = "gorillas"
version = "0.1.0"
edition = "2021"
publish = false

[dependencies]
rand = "0.10"
winit = "0.30"
wgpu = "*"
pollster = "0.4"
bytemuck = { version = "1", features = ["derive"] }
cpal = "*"
crossbeam-channel = "0.5"
synthie = "0.3"
anyhow = "1"
