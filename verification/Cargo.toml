[package]
name = "rust_gl"
version = "0.1.0"
edition = "2021"
publish = false

[dependencies]
anyhow = "1"
glfw = "0.52"
glm = "0.2.3"
glow = "0.12"
image = { version = "0.24", default-features = false, features = ["png"] }
imgui = { version = "0.11", features = ["docking"] }
mint = "0.5"
russimp = "2.0"
