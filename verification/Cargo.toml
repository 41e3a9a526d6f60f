[package]
name = "homokuzel"
version = "0.1.0"
edition = "2021"
publish = false

[dependencies]
anyhow = "=1.0.104"
egui = "=0.27.2"
image = { version = "=0.25.10", default-features = false, features = ["png", "jpeg", "bmp"] }
nalgebra = { version = "=0.32.6", default-features = false, features = ["std"] }
serde = { version = "=1.0.229", features = ["derive"] }
serde_json = "=1.0.154"
