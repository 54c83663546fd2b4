[package]
name = "st_conductor"
version = "0.1.0"
edition = "2021"
publish = false

[dependencies]
clap = { version = "4", features = ["derive"] }
eframe = { version = "0.37", default-features = false, features = ["default_fonts", "glow", "x11"] }
jack = "*"
libc = "0.2"
serde = { version = "1", features = ["derive"] }
serde_yaml = "0.9"
tokio = { version = "1", features = ["rt-multi-thread"] }
