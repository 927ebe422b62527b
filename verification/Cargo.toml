[package]
name = "voxel_engine"
version = "0.1.0"
edition = "2021"
publish = false

[dependencies]
glam = "0.29"
rayon = "1"
bytemuck = { version = "1", features = ["derive"] }
serde = { version = "1", features = ["derive"] }
bincode = "1"
anyhow = "1"
tokio = { version = "1", features = ["full"] }
tokio-tungstenite = "0.24"
futures-util = "0.3"
tracing = "0.1"
ahash = "0.8"
image = { version = "0.25", default-features = false, features = ["png"] }
pollster = "0.3"
wgpu = "22"
winit = "0.30"
egui = "0.29"
egui-wgpu = "0.29"
egui-winit = "0.29"
