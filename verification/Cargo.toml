[package]
name = "resvm"
version = "0.1.0"
edition = "2021"
publish = false

[dependencies]
serde = { version = "=1.0.229", features = ["derive"] }
serde_json = "=1.0.151"
chrono = { version = "=0.4.45", features = ["serde"] }
time = "=0.3.55"
uuid = { version = "=1.27.0", features = ["v4"] }
http = "=1.5.0"
rand = "=0.8.8"
rust-argon2 = "=3.0.0"
