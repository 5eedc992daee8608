[package]
name = "backend"
version = "0.1.0"
edition = "2021"
publish = false

[dependencies]
uuid = "*"
chrono = "*"
actix-web = "*"
serde = { version = "*", features = ["derive"] }
serde_json = "*"
