[package]
name = "jpeg_sidecar"
version = "0.1.0"
edition = "2021"
publish = false

[dependencies]
kamadak-exif = "*"
chrono = "*"
clap = { version = "*", features = ["derive"] }

[dev-dependencies]
serde_json = "*"
