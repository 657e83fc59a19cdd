[package]
name = "raytracer"
version = "0.1.0"
edition = "2021"
publish = false

[dependencies]
image = "=0.25.10"
piston_window = "=0.148.0"
