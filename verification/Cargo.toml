[package]
name = "atombot"
version = "0.1.0"
edition = "2021"
publish = false

[dependencies]
regex = "=1.13.1"
html-escape = "=0.2.15"
scraper = "=0.29.0"
url = "=2.5.8"
serde = { version = "=1.0.229", features = ["derive"] }
serde_json = "=1.0.154"
mime_guess = "=2.0.5"
urlencoding = "=2.1.3"
async-openai = { version = "=0.43.0", features = ["chat-completion"] }
reqwest = { version = "=0.13.5", features = ["json"] }
tokio = { version = "=1.54.1", features = ["full"] }
async-trait = "=0.1.92"
thiserror = "=2.0.21"
anyhow = "=1.0.104"
log = "=0.4.35"
chrono = "=0.4.45"
crossbeam-channel = "=0.5.17"
dotenvy = "=0.15.7"
env_logger = "=0.11.11"
axum = "=0.8.9"
tower-http = { version = "=0.7.1", features = ["cors"] }
