[package]
name = "container_manager"
version = "0.1.0"
edition = "2021"
publish = false

[dependencies]
chrono = "=0.4.45"
serde = { version = "=1.0.229", features = ["derive"] }
serde_json = "=1.0.154"
eframe = { version = "=0.23.0", default-features = false, features = ["default_fonts", "glow"] }
rfd = { version = "=0.12.1", default-features = false, features = ["xdg-portal"] }
