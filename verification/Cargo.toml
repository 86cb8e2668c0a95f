[package]
name = "meshframe"
version = "0.1.0"
edition = "2021"
publish = false

[dependencies]
bytemuck = "*"
cgmath = "*"
clap = "*"
futures = "*"
image = "*"
nom_stl = "*"
wgpu = "*"
