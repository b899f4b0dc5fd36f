[package]
name = "tetrs_engine"
version = "0.1.0"
edition = "2021"
publish = false

[dependencies]
rand = "0.8"
crossterm = "0.27"
serde = { version = "1", features = ["derive"] }
serde_json = "1"
serde_with = "3"
chrono = "0.4"
device_query = "2"
