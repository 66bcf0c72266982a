[package]
name = "fluid_core"
version = "0.1.0"
edition = "2021"
publish = false

[dependencies]
rand = "0.8"
bytemuck = { version = "1", features = ["derive"] }
wgpu = { version = "0.20", default-features = false, features = ["wgsl"] }
raw-window-handle = "0.6"
pollster = "0.3"
log = "0.4"
