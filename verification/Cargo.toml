[package]
name = "tgstate"
version = "0.1.0"
edition = "2021"
publish = false

[dependencies]
axum = { version = "0.7", features = ["multipart"] }
bytes = "1"
chrono = "0.4"
hex = "0.4"
mime_guess = "2"
openidconnect = { version = "4", default-features = false, features = ["reqwest", "rustls-tls"] }
percent-encoding = "2"
r2d2 = "0.8"
r2d2_sqlite = "0.25"
rand = "0.8"
reqwest = { version = "0.12", default-features = false, features = ["json", "multipart", "rustls-tls"] }
rusqlite = { version = "0.32", features = ["bundled"] }
serde = { version = "1", features = ["derive"] }
serde_json = "1"
tera = "1"
tokio = { version = "1", features = ["full"] }
tracing = "0.1"
