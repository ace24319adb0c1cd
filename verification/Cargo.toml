[package]
name = "buoya-news-agent"
version = "0.1.0"
edition = "2021"
publish = false

[dependencies]
serde = { version = "=1.0.229", features = ["derive"] }
serde_json = "=1.0.154"
toml = "=1.1.8"
humantime = "=2.4.0"
chrono = "=0.4.45"
anyhow = "=1.0.104"
thiserror = "=2.0.21"
uuid = { version = "=1.29.0", features = ["v4"] }
dotenvy = "=0.15.7"
clap = { version = "=4.6.7", features = ["derive"] }
tracing = "=0.1.44"
tracing-subscriber = { version = "=0.3.23", features = ["env-filter"] }
tracing-appender = "=0.2.5"
tokio = { version = "=1.54.1", features = ["full"] }
futures = "=0.3.34"
tokio-stream = { version = "=0.1.19", features = ["sync"] }
ratatui = { version = "=0.30.2", default-features = false, features = ["crossterm"] }
sqlx = { version = "=0.9.0", default-features = false, features = ["sqlite", "runtime-tokio"] }
reqwest = { version = "=0.13.5", default-features = false }
feed-rs = "=3.0.0"
actix-web = { version = "=4.18.1", default-features = false, features = ["macros"] }
actix-cors = "=0.7.2"
actix-web-lab = "=0.29.5"
utoipa = "=6.0.0"
async-openai = { version = "=0.43.0", features = ["chat-completion"] }
http = "=1.5.0"
http-body-util = "=0.1.5"
libsqlite3-sys = "=0.37.0"
sqlite-vec = "=0.1.9"
rmcp = { version = "=3.8.0", features = ["server", "transport-streamable-http-server"] }
