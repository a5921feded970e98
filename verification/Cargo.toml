[package]
name = "cinematic"
version = "0.1.0"
edition = "2021"
publish = false

[dependencies]
anyhow = "1"
async-openai = { version = "=0.42.1", features = ["chat-completion"] }
chrono = "=0.4.45"
dotenvy = "*"
futures = "0.3"
regex = "1"
reqwest = { version = "=0.13.5", features = ["json"] }
scraper = "=0.27.0"
serde = { version = "1", features = ["derive"] }
serde_json = "1"
serenity = "=0.11.7"
tokio = { version = "1", features = ["full"] }
toml = "=1.1.6"
