[package]
name = "ping0"
version = "0.1.0"
edition = "2021"
publish = false

[dependencies]
hex = "0.4"
mime_guess = "2"
nanoid = "0.4"
qrcode = { version = "0.14", default-features = false, features = ["svg"] }
rand = "0.8"
sha2 = "0.10"
urlencoding = "2"
uuid = { version = "1", features = ["v4"] }
anyhow = "1"
askama = "0.12"
axum = { version = "0.7", features = ["multipart", "macros"] }
axum-extra = { version = "0.9", features = ["typed-header"] }
rusqlite = "0.31"
serde = { version = "1", features = ["derive"] }
serde_json = "1"
tokio = { version = "1", features = ["full"] }
tower-http = { version = "0.5", features = ["fs", "cors"] }
tracing = "0.1"
tracing-subscriber = "0.3"
