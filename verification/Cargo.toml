[package]
name = "bevy_liminal"
version = "0.1.0"
edition = "2021"
publish = false

[dependencies]
nonmax = "=0.5.5"
bytemuck = { version = "=1.25.2", features = ["derive"] }
tracing = "=0.1.44"
