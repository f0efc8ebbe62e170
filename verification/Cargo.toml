[package]
name = "whatsapp_rust_server"
version = "0.1.0"
edition = "2021"
publish = false

[dependencies]
anyhow = "=1.0.104"
async-openai = { version = "=0.43.0", features = ["chat-completion"] }
axum = "=0.8.9"
bcrypt = "=0.15.1"
chrono = "=0.4.45"
dotenvy = "=0.15.7"
image = { version = "=0.25.10", default-features = false, features = ["png"] }
oracle = "=0.6.3"
phonenumber = "=0.3.10"
qrcode = "=0.14.1"
rand = "=0.10.3"
reqwest = { version = "=0.12.28", default-features = false, features = ["json", "rustls-tls"] }
serde = { version = "=1.0.229", features = ["derive"] }
serde_json = "=1.0.154"
strsim = "=0.11.1"
tokio = { version = "=1.54.1", features = ["full"] }
tracing = "=0.1.44"
tracing-subscriber = { version = "=0.3.23", features = ["env-filter"] }
