[package]
name = "random_shapes"
version = "0.1.0"
edition = "2021"
publish = false

[dependencies]
rand = "0.8"
eframe = { version = "0.22", default-features = false, features = ["default_fonts", "glow"] }
env_logger = "0.10"
image = { version = "0.24", default-features = false, features = ["png"] }
rfd = "0.11"
