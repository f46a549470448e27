[package]
name = "foodbasket"
version = "0.1.0"
edition = "2021"
publish = false

[dependencies]
argon2 = "*"
rand = "*"
base64 = "*"
anyhow = "*"
axum = "*"
tokio = { version = "*", features = ["rt-multi-thread", "macros", "net"] }
fred = "*"
sqlx = { version = "*", default-features = false, features = ["runtime-tokio", "postgres", "chrono", "uuid"] }
serde = { version = "*", features = ["derive"] }
chrono = "*"
uuid = "*"
tower-cookies = "*"
http = "*"
validator = { version = "*", features = ["derive"] }
