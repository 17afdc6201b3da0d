[package]
name = "tinyase"
version = "0.1.0"
edition = "2021"
publish = false

[dependencies]
zerocopy = "0.8"
bitflags = "2"
thiserror = "2"
clap = { version = "4", features = ["derive"] }
tiny-skia = "0.11"
pixels = "*"
winit = "0.30"
