[package]
name = "voxel_mesher"
version = "0.1.0"
edition = "2021"
publish = false

[dependencies]
glium = "0.31"
image = "0.24"
vecmath = "1.0"
clock_ticks = "0.1"
