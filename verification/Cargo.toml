[package]
name = "incline_design"
version = "0.1.0"
edition = "2021"
publish = false

[dependencies]
anyhow = "1"
egui = "*"
egui_extras = { version = "*", default-features = false, features = ["svg"] }
glam = "*"
i18n-embed = { version = "*", features = ["fluent-system"] }
log = "0.4"
pollster = "*"
serde = { version = "1", features = ["derive"] }
sys-locale = "*"
thousands = "0.2"
unic-langid = "0.9"
wasm-bindgen-futures = "0.4"
web-time = "1"
winit = { version = "0.30", default-features = false, features = ["rwh_06", "wayland", "wayland-dlopen", "x11"] }
