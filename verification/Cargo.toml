[package]
name = "hyperion"
version = "0.1.0"
edition = "2021"
publish = false

[dependencies]
base64 = "0.13"
chrono = { version = "0.4", default-features = false, features = ["std"] }
humantime = "2"
image = { version = "0.23", default-features = false, features = ["png"] }
palette = "0.5"
thiserror = "1"
