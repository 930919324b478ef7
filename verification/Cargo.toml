[package]
name = "rukako"
version = "0.1.0"
edition = "2021"
publish = false

[dependencies]
rand = "0.8"
bytemuck = { version = "1", features = ["derive"] }
spirv-std = "0.9"
wgpu = "0.9"
image = "0.23"
png = "0.16"
pollster = "0.2"
env_logger = "0.8"

[dev-dependencies]
float-ord = "*"
