[package]
name = "lumber"
version = "0.1.0"
edition = "2021"
publish = false

[dependencies]
glfw = "0.41"
image = "0.23"
luminance = "0.44"
luminance-derive = "0.7"
luminance-front = "0.4"
luminance-glfw = "0.16"
luminance-windowing = "0.10"
nalgebra = "0.29"
rand = "0.8"
rapier3d = "0.11"
rodio = "0.14"
rusttype = "0.9"
statrs = "0.15"
