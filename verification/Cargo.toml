[package]
name = "isovoxel"
version = "0.1.0"
edition = "2021"
publish = false

[dependencies]
noise = "*"
macroquad = "*"
asefile = "*"
