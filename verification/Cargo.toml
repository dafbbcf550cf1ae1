[package]
name = "game_systems_web"
version = "0.3.0"
edition = "2021"
publish = false

[dependencies]
url = "=2.5.8"
rust-i18n = "=3.1.5"
rust-i18n-support = "=3.1.5"
reqwest = { version = "=0.12.28", default-features = false, features = ["json"] }
serde = { version = "=1.0.229", features = ["derive"] }
serde_json = "=1.0.154"
axum = "=0.8.9"
axum-extra = { version = "=0.10.3", features = ["cookie"] }
askama = "=0.14.0"
tracing = "=0.1.44"
tokio = { version = "=1.54.1", features = ["rt-multi-thread", "macros", "net"] }
