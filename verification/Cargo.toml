[package]
name = "burnsubs"
version = "1.0.0"
edition = "2021"
publish = false

[dependencies]
anyhow = "1.0.104"
directories = "6.0.0"
eframe = { version = "0.37.0", default-features = false, features = ["default_fonts", "glow", "wayland", "x11"] }
rfd = "0.17.2"
serde = { version = "1.0.229", features = ["derive"] }
serde_json = "1.0.154"
tracing = "0.1.44"
tracing-subscriber = { version = "0.3.23", features = ["env-filter"] }
