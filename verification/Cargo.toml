[package]
name = "space_game"
version = "0.1.0"
edition = "2021"
publish = false

[dependencies]
fastrand = "=1.9.0"
lz4_flex = { version = "=0.10.0", features = ["checked-decode"] }
serde = { version = "=1.0.229", features = ["derive"] }
bincode = "=1.3.3"
glam = { version = "=0.23.0", features = ["serde"] }
winit = "=0.28.7"
