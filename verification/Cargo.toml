[package]
name = "muzak"
version = "0.1.0"
edition = "2021"
publish = false

[dependencies]
ahash = { version = "=0.8.12", features = ["serde"] }
anyhow = "1"
async-std = "=1.13.2"
directories = "=5.0.1"
image = { version = "=0.25.10", default-features = false, features = ["bmp", "jpeg", "png"] }
serde = { version = "=1.0.229", features = ["derive"] }
serde_json = "=1.0.154"
sqlx = { version = "=0.8.6", default-features = false, features = ["sqlite", "runtime-async-std"] }
symphonia = { version = "0.5", features = ["mp3"] }
tracing = "=0.1.44"
tracing-subscriber = "0.3"
