[package]
name = "doom_wgpu"
version = "0.1.0"
edition = "2021"
publish = false

[dependencies]
bytemuck = "1"
regex = "1"
rustysynth = "*"
rodio = "*"
dasp_sample = "*"
wgpu = "*"
winit = "*"
pollster = "*"
env_logger = "*"
