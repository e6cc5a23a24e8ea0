[package]
name = "sky_render"
version = "0.1.0"
edition = "2021"
publish = false

[dependencies]
base64 = "0.21"
flate2 = "1"
roxmltree = "0.20"
serde = { version = "1", features = ["derive"] }
serde_json = "1"
image = { version = "0.25", default-features = false, features = ["png"] }
wgpu = "*"
bytemuck = { version = "1", features = ["derive"] }
rustc-hash = "2"
