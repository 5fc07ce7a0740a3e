[package]
name = "pandafit"
version = "0.1.0"
edition = "2021"
publish = false

[dependencies]
serde = { version = "1", features = ["derive"] }
serde_json = "1"
thiserror = "2"
libc = "0.2"
eframe = { version = "0.37", default-features = false, features = ["default_fonts", "glow", "x11"] }
egui = "0.37"
rfd = "0.17"
