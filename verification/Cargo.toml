[package]
name = "udrome"
version = "0.1.0"
edition = "2021"
publish = false

[dependencies]
anyhow = "1"
async-trait = "0.1"
axum = "0.7"
axum-extra = { version = "0.9", features = ["typed-header", "async-read-body"] }
axum-range = "0.4"
camino = { version = "1", features = ["serde1"] }
filesize = "0.2"
id3 = "1"
log = "0.4"
mime_guess = "2"
mp3-duration = "0.1"
rand = "0.8"
rayon = "1"
sea-orm = { version = "1.1", features = ["sqlx-sqlite", "runtime-tokio-rustls", "macros"] }
sea-orm-migration = { version = "1.1", default-features = false, features = ["sqlx-sqlite", "runtime-tokio-rustls"] }
serde = { version = "1", features = ["derive"] }
serde_json = "1"
subsonic-types = "*"
thiserror = "1"
tokio = { version = "1", features = ["full"] }
toml = "0.8"
tower-http = { version = "0.6", features = ["cors", "trace"] }
tracing = "0.1"
tracing-subscriber = "0.3"
walkdir = "2"
