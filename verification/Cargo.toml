[package]
name = "infuser"
version = "0.1.0"
edition = "2021"
publish = false

[dependencies]
bson = "2"
chrono = "0.4"
gethostname = "0.4"
mongodb = { version = "2", features = ["tokio-sync"] }
serde = { version = "1", features = ["derive"] }
serde_json = "1"
