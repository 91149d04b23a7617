[package]
name = "time_bandit"
version = "0.1.0"
edition = "2021"
publish = false

[dependencies]
bcrypt = "*"
rand = "*"
uuid = { version = "*", features = ["v4"] }
chrono = "*"
axum = "0.7"
axum-extra = { version = "0.9", features = ["cookie-private"] }
tokio = { version = "1", features = ["full"] }
http = "1"
tower-http = { version = "0.5", features = ["cors"] }
serde = { version = "1", features = ["derive"] }
