[package]
name = "img_viewer"
version = "0.1.0"
edition = "2021"
publish = false

[dependencies]
clap = { version = "3.2", features = ["derive"] }
image = "0.24"
pixels = "0.10"
thiserror = "1"
winit = "0.27"
