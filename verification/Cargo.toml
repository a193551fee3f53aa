[package]
name = "deeper_physics"
version = "0.1.0"
edition = "2021"
publish = false

[dependencies]
legion = { version = "0.4", default-features = false }
nphysics2d = "*"
cgmath = "*"
ron = "*"
serde = { version = "1", features = ["derive"] }
