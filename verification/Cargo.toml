[package]
name = "sisr"
version = "0.1.0"
edition = "2021"
publish = false

[dependencies]
serde_json = "=1.0.154"
serde = { version = "=1.0.229", features = ["derive"] }
directories = "=6.0.0"
tracing = "=0.1.44"
tokio = { version = "=1.54.1", features = ["rt-multi-thread", "macros", "sync", "time"] }
reqwest = { version = "=0.12.28", default-features = false, features = ["json", "rustls-tls"] }
axum = "=0.8.9"
x11rb = "=0.13.2"
utoipa = "5"
problem_details = { version = "*", features = ["axum"] }
