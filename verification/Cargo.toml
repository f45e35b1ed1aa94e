[package]
name = "minigolf"
version = "0.1.0"
edition = "2021"
publish = false

[dependencies]
eframe = { version = "0.26", default-features = false, features = ["glow", "persistence", "default_fonts"] }
egui = "0.26"
image = { version = "0.24", default-features = false }
serde = { version = "1", features = ["derive"] }
