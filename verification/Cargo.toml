[package]
name = "chess_again"
version = "0.1.0"
edition = "2021"
publish = false

[dependencies]
eframe = { version = "0.31", default-features = false, features = ["default_fonts", "glow", "x11"] }
egui = "0.31"
egui_extras = { version = "0.31", features = ["file", "image"] }
env_logger = "0.11"
