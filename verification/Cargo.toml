[package]
name = "terminoids"
version = "0.1.0"
edition = "2021"
publish = false

[dependencies]
termion = "2"
rand = "0.8"
serde = { version = "1", features = ["derive"] }
serde_json = "1"
curl = "0.4"
