[package]
name = "commercerack"
version = "0.1.0"
edition = "2021"
publish = false

[dependencies]
uuid = { version = "1", features = ["v4"] }
chrono = "0.4"
serde = { version = "1", features = ["derive"] }
rust_decimal = "1"
jsonwebtoken = "9"
axum = "0.6"
