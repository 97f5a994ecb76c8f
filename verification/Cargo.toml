[package]
name = "photoos"
version = "0.1.0"
edition = "2021"
publish = false

[dependencies]
reqwest = { version = "=0.12.28", default-features = false, features = ["json", "stream"] }
chrono = "=0.4.45"
uuid = { version = "=1.29.0", features = ["v4"] }
sha2 = "=0.10.9"
serde = { version = "=1.0.229", features = ["derive"] }
serde_json = { version = "=1.0.154", features = ["preserve_order"] }
rand = "=0.8.8"
jsonwebtoken = "=9.3.1"
argon2 = "=0.5.3"
axum = { version = "=0.8.9", features = ["ws", "multipart"] }
tokio = { version = "=1.54.1", features = ["full"] }
tower-http = { version = "=0.6.11", features = ["fs", "cors"] }
sqlx = { version = "=0.8.6", default-features = false, features = ["runtime-tokio", "sqlite", "macros"] }
kamadak-exif = "=0.5.5"
zip = "=2.6.1"
image = { version = "=0.25.10", default-features = false, features = ["jpeg", "png", "gif", "webp"] }
tokio-util = { version = "=0.7.20", features = ["io"] }
