[package]
name = "lensing"
version = "0.1.0"
edition = "2021"
publish = false

[dependencies]
bytemuck = { version = "=1.25.2", features = ["derive"] }
cgmath = "=0.18.0"
env_logger = { version = "=0.11.11", default-features = false }
gilrs = { version = "0.10", default-features = false }
image = { version = "=0.24.9", default-features = false, features = ["png", "jpeg"] }
instant = "=0.1.13"
log = "=0.4.34"
pollster = "=0.3.0"
sdl2 = "0.36"
tobj = { version = "=4.0.5", default-features = false }
wgpu = { version = "=0.19.4", default-features = false, features = ["wgsl"] }
