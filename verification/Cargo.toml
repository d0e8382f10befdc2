[package]
name = "voidseek"
version = "0.1.0"
edition = "2021"
publish = false

[dependencies]
bytemuck = "*"
hecs = "*"
image = { version = "*", default-features = false, features = ["png"] }
pollster = "*"
wgpu = "*"
winit = "*"
