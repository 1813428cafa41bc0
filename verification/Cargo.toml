[package]
name = "veltrix"
version = "0.1.0"
edition = "2021"
publish = false

[dependencies]
anyhow = "=1.0.104"
copypasta = "=0.10.2"
directories = "=5.0.1"
env_logger = "=0.11.11"
glam = { version = "=0.25.0", features = ["serde"] }
hecs = "=0.10.5"
lazy_static = "=1.5.1"
log = "=0.4.35"
notify = "=6.1.1"
rand = "=0.8.8"
rapier2d = "=0.18.0"
ron = "=0.8.1"
serde = { version = "=1.0.229", features = ["derive"] }
winit = "0.29"
