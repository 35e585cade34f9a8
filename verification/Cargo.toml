[package]
name = "mrr_fantasy"
version = "0.1.0"
edition = "2021"
publish = false

[dependencies]
rand = "*"
axum = "*"
tokio = { version = "*", features = ["full"] }
tower-http = { version = "*", features = ["cors"] }
argon2 = "*"
jsonwebtoken = "*"
chrono = { version = "*", features = ["serde"] }
uuid = { version = "*", features = ["v4", "serde"] }
rust_decimal = "*"
serde = { version = "*", features = ["derive"] }
serde_json = "*"
dotenvy = "*"
