[package]
name = "aviqtl"
version = "0.1.0"
edition = "2021"
publish = false

[dependencies]
slint = { version = "*", default-features = false, features = ["std", "compat-1-2"] }
serde_json = "*"
fontdb = "*"
sys-locale = "*"
tiny-skia = "*"
rustybuzz = "*"
pollster = "*"
webbrowser = "*"
rfd = "*"
wgpu = "*"
