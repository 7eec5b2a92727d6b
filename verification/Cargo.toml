[package]
name = "responses_core"
version = "0.1.0"
edition = "2021"
publish = false

[dependencies]
anyhow = "1"
endpoints = "*"
serde = { version = "1", features = ["derive"] }
serde_json = "1"
sqlx = { version = "*", default-features = false, features = ["sqlite", "runtime-tokio"] }
uuid = { version = "1", features = ["v4"] }
