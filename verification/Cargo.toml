[package]
name = "logibaba"
version = "0.1.0"
edition = "2021"
publish = false

[dependencies]
lazy_static = "=1.5.1"
sdl2 = { version = "=0.38.0", features = ["image", "ttf", "unsafe_textures"] }
