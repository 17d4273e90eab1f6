[package]
name = "egui_glow"
version = "0.1.0"
edition = "2021"
publish = false

[dependencies]
egui = "0.24"
egui-winit = { version = "0.24", default-features = false, features = ["x11"] }
glow = "0.12"
log = "0.4"
