[package]
name = "tileworld"
version = "0.1.0"
edition = "2021"
publish = false

[dependencies]
env_logger = "0.7"
futures = "0.3"
rand = "0.7"
wgpu = "0.5"
wgpu_glyph = "0.9"
winit = "0.22"
