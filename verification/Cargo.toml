[package]
name = "cbz_viewer"
version = "0.1.0"
edition = "2021"
publish = false

[dependencies]
natord = "=1.0.9"
egui = { version = "=0.34.3", default-features = false, features = ["default_fonts"] }
tracing = "=0.1.44"
