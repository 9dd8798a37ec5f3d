[package]
name = "turtle_store"
version = "0.1.0"
edition = "2021"
publish = false

[dependencies]
libmdbx = "*"
serde = { version = "*", features = ["derive"] }
serde_json = "*"
axum = { version = "*", features = ["multipart"] }
tokio = { version = "*", features = ["net", "rt-multi-thread"] }
tower-http = { version = "*", features = ["cors"] }

[dev-dependencies]
tempfile = "*"
