[package]
name = "render_core"
version = "0.1.0"
edition = "2021"
publish = false

[dependencies]
uuid = "1"
wgpu = "0.16"
winit = "0.28"
parking_lot = "0.12"
serde = { version = "1", features = ["derive"] }
thiserror = "1"
zerocopy = { version = "0.7", features = ["derive"] }
