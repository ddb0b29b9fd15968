[package]
name = "config"
version = "0.1.0"
edition = "2021"
publish = false

[dependencies]
base64-url = "*"
chrono = "*"
serde = { version = "*", features = ["derive"] }
actix-web = "*"
