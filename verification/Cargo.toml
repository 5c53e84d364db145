[package]
name = "mission_crew"
version = "0.1.0"
edition = "2021"
publish = false

[dependencies]
anyhow = "=1.0.104"
argon2 = "*"
async-trait = "=0.1.92"
axum = "=0.8.9"
base64 = "=0.23.1"
chrono = "=0.4.45"
diesel = { version = "=2.3.14", features = ["postgres", "r2d2", "chrono"] }
dotenvy = "=0.15.7"
infer = "=0.22.0"
jsonwebtoken = { version = "*", default-features = false, features = ["rust_crypto"] }
serde = { version = "=1.0.229", features = ["derive"] }
serde_json = "=1.0.154"
tokio = { version = "=1.54.1", features = ["full"] }
tracing = "=0.1.44"
tracing-subscriber = "=0.3.23"
