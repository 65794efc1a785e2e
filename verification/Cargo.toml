[package]
name = "campus_data"
version = "0.1.0"
edition = "2021"
publish = false

[dependencies]
chrono = { version = "0.4", features = ["serde"] }
chrono-tz = "*"
serde = { version = "1", features = ["derive"] }
toml = "*"
thiserror = "*"
