[package]
name = "platformer"
version = "0.1.0"
edition = "2021"
publish = false

[dependencies]
nalgebra = "=0.29.0"
ncollide2d = "=0.32.0"
nphysics2d = "=0.24.0"
serde = { version = "=1.0.229", features = ["derive"] }
tiled = "=0.9.4"
