[package]
name = "spectrum_monitor"
version = "0.1.0"
edition = "2021"
publish = false

[dependencies]
anyhow = "=1.0.104"
bytemuck = { version = "=1.25.2", features = ["derive"] }
egui = { version = "=0.30.0", default-features = false }
egui-wgpu = { version = "=0.30.0", default-features = false }
egui-winit = { version = "=0.30.0", default-features = false }
frame_counter = "=0.1.3"
pollster = "=0.4.0"
rustfft = "=6.4.1"
winit = { version = "=0.30.13", default-features = false, features = ["rwh_06", "wayland", "wayland-dlopen"] }
