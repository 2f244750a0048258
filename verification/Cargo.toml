[package]
name = "serigen"
version = "0.1.0"
edition = "2021"
publish = false

[dependencies]
argon2 = "=0.6.0"
jsonwebtoken = { version = "=11.1.0", features = ["rust_crypto"] }
serde_json = "*"
serde = { version = "*", features = ["derive"] }
axum = "*"
axum-extra = { version = "*", features = ["cookie"] }
tokio = { version = "*", features = ["rt-multi-thread", "macros", "net"] }
sqlx = { version = "*", features = ["sqlite", "runtime-tokio"] }
tower-sessions = { version = "*", features = ["memory-store"] }
chrono = "*"
dotenv = "*"
