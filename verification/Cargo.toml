[package]
name = "watchmover"
version = "0.1.0"
edition = "2021"
publish = false

[dependencies]
anitomy = "*"
anyhow = "*"
notify = "*"
serde = { version = "*", features = ["derive"] }
tokio = { version = "*", features = ["full"] }
toml = "*"
tracing = "*"
tracing-subscriber = { version = "*", features = ["env-filter"] }
walkdir = "*"
