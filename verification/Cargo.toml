[package]
name = "cautious_carnival"
version = "0.1.0"
edition = "2021"
publish = false

[dependencies]
tiny-skia = "*"
fontdue = "*"
gif = "*"
image = { version = "*", default-features = false, features = ["png"] }
ffmpeg-sidecar = { version = "*", default-features = false }
rayon = "*"
anyhow = "*"
glam = "*"
cosmic-text = "*"
