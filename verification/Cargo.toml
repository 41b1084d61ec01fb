[package]
name = "hdiag"
version = "0.1.0"
edition = "2021"
publish = false

[dependencies]
zip = "*"
base64 = "*"
mime_guess = "*"
axum = "*"
tokio = { version = "*", features = ["full"] }
headless_chrome = "*"
clap = { version = "*", features = ["derive"] }
color-eyre = "*"
tracing = "*"
tracing-subscriber = { version = "*", features = ["env-filter"] }
serde_json = "*"
quick-xml = "*"
