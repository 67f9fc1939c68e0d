[package]
name = "json_log_reader"
version = "0.1.0"
edition = "2021"
publish = false

[dependencies]
json = "=0.12.4"
regex = "=1.13.1"
grep = "=0.3.2"
grep-regex = "=0.1.14"
notify = "=6.1.1"
crossbeam-channel = "=0.5.17"
log = "=0.4.34"
pretty_env_logger = "0.5"
serde = { version = "=1.0.229", features = ["derive"] }
egui = "=0.27.2"
eframe = { version = "=0.27.2", default-features = false, features = ["default_fonts", "glow", "persistence"] }
egui_extras = "=0.27.2"
egui_dock = "=0.12.0"
egui-toast = "=0.13.0"
rfd = "=0.14.1"
