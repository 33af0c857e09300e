[package]
name = "tokio-console-web"
version = "0.1.0"
edition = "2021"
publish = false

[dependencies]
anyhow = "1"
axum = "0.4"
axum-flash = "0.2"
axum-macros = "0.1"
clap = { version = "3", features = ["derive", "env"] }
console-api = "0.1"
prost-types = "=0.9.0"
regex = "=1.13.1"
serde = { version = "1", features = ["derive"] }
tokio = { version = "1", features = ["full"] }
tokio-util = "0.7"
tonic = "0.6"
tower = "0.4"
tower-http = { version = "0.2", features = ["trace", "add-extension"] }
tracing = "0.1"
tracing-subscriber = { version = "0.3", features = ["env-filter"] }
