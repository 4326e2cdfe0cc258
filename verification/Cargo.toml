[package]
name = "render_service"
version = "0.1.0"
edition = "2021"
publish = false

[dependencies]
flutter_rust_bridge = "2"
futures-intrusive = "0.5"
lazy_static = "1"
pollster = "0.3"
vello = "0.1"
wgpu = "0.19"
