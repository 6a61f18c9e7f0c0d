[package]
name = "pacman"
version = "0.1.0"
edition = "2021"
publish = false

[dependencies]
rand = "0.9"
circular-buffer = "1"
bevy_ecs = "0.16"
sdl2 = { version = "0.37", features = ["mixer", "ttf", "image", "unsafe_textures"] }
glam = "0.30"
tracing = "0.1"
smallvec = "1"
thousands = "0.2"
strum = "0.27"
anyhow = "1"
