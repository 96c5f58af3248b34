[package]
name = "dijo"
version = "0.1.0"
edition = "2021"
publish = false

[dependencies]
chrono = "0.4"
cursive = { version = "0.15", default-features = false, features = ["crossterm-backend"] }
notify = "4.0"
serde = { version = "1.0", features = ["derive"] }
serde_json = "1.0"
