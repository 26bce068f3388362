[package]
name = "syntect_server"
version = "0.1.0"
edition = "2021"
publish = false

[dependencies]
syntect = { version = "*", default-features = false, features = ["default-fancy"] }
serde = { version = "*", features = ["derive"] }
serde_json = "*"
rocket = { version = "*", features = ["json"] }
rocket_cors = "*"
