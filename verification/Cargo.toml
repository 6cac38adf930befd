[package]
name = "needadrop"
version = "0.1.0"
edition = "2021"
publish = false

[dependencies]
askama = "*"
axum = { version = "0.7", features = ["multipart"] }
bcrypt = "*"
chrono = "*"
dotenvy = "*"
rusqlite = { version = "*", features = ["bundled"] }
serde = { version = "*", features = ["derive"] }
tokio = { version = "*", features = ["macros", "rt-multi-thread", "net", "fs"] }
tower = "*"
tower-http = { version = "*", features = ["cors", "fs", "trace"] }
tracing = "*"
tracing-subscriber = { version = "*", features = ["env-filter"] }
uuid = { version = "*", features = ["v4"] }
