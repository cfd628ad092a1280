[package]
name = "blog_server"
version = "0.1.0"
edition = "2021"
publish = false

[dependencies]
sha2 = "0.10"
base64 = "0.22"
tokio = { version = "1", features = ["rt-multi-thread", "macros", "sync", "net", "io-util", "time"] }
sqlx = { version = "0.8", default-features = false, features = ["runtime-tokio", "sqlite"] }
axum = "0.8"
serde = { version = "1", features = ["derive"] }
dotenv = "0.15"
