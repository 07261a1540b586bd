[package]
name = "rembg"
version = "0.1.0"
edition = "2021"
publish = false

[dependencies]
image = "=0.25.10"
imageproc = "=0.24.1"
clap = { version = "4", features = ["derive"] }
ort = { version = "=2.0.0-rc.13", default-features = false, features = ["std", "load-dynamic"] }
