[package]
name = "arcana"
version = "0.1.0"
edition = "2021"
publish = false

[dependencies]
chrono = "=0.4.45"
uuid = { version = "=1.29.0", features = ["v7"] }
getrandom = "=0.4.3"
serde = { version = "=1.0.229", features = ["derive"] }
serde_json = "=1.0.154"
fs2 = "=0.4.3"
regex = "=1.13.1"
serde_yaml = "=0.9.34"
