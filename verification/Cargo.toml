[package]
name = "chronoturin"
version = "0.1.0"
edition = "2021"
publish = false

[dependencies]
bytemuck = { version = "1", features = ["derive"] }
image = { version = "0.24", default-features = false, features = ["png"] }
pollster = "0.3"
rand = "0.8"
wgpu = "0.19"
