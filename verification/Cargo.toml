[package]
name = "displayer"
version = "0.1.0"
edition = "2021"
publish = false

[dependencies]
kamadak-exif = "*"
walkdir = "*"
axum = "*"
tokio = { version = "*", default-features = false, features = ["rt-multi-thread", "macros", "net", "fs"] }
clap = { version = "*", features = ["derive"] }
log = "*"
env_logger = "*"
mime_guess = "*"
