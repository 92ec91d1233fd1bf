[package]
name = "colorlaunch"
version = "0.1.0"
edition = "2021"
publish = false

[dependencies]
freedesktop-file-parser = "=0.3.1"
image = { version = "=0.25.10", default-features = false, features = ["png", "jpeg", "gif", "bmp", "ico", "webp"] }
palette = "=0.7.7"
eyre = "=0.6.14"
log = "=0.4.34"
env_logger = "=0.11.11"
smithay-client-toolkit = { version = "=0.21.1", default-features = false, features = ["calloop"] }
wayland-client = "=0.31.15"
wayland-backend = { version = "=0.3.17", features = ["client_system", "dlopen"] }
wgpu = "=28.0.0"
bytemuck = { version = "=1.25.2", features = ["derive"] }
pollster = "=0.4.0"
raw-window-handle = "=0.6.2"
