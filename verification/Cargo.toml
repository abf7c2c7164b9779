[package]
name = "terminite"
version = "0.1.0"
edition = "2021"
publish = false

[dependencies]
serde_json = "1"
wgpu = "*"
winit = "0.30"
glyphon = "*"
arboard = { version = "3", default-features = false }
libc = "0.2"
