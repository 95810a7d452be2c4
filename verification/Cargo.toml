[package]
name = "docsgpt-telegram"
version = "2.0.0"
edition = "2021"
publish = false

[dependencies]
anyhow = "1"
async-trait = "0.1"
axum = "0.8"
base64 = "0.22"
bytes = "1"
chrono = { version = "0.4", default-features = false, features = ["clock"] }
clap = { version = "4", features = ["derive", "env"] }
dotenvy = "0.15"
frankenstein = { version = "*", features = ["client-reqwest"] }
futures-util = "0.3"
mime_guess = "2"
mongodb = "3"
pulldown-cmark = { version = "0.13", default-features = false }
rand = "0.9"
regex = "1"
reqwest = { version = "*", features = ["json", "multipart", "stream", "query"] }
rusqlite = { version = "*", features = ["bundled"] }
serde = { version = "1", features = ["derive"] }
serde_json = "1"
tempfile = "3"
tokio = { version = "1", features = ["full"] }
tokio-util = "0.7"
toml = "*"
tracing = "0.1"
tracing-subscriber = { version = "0.3", features = ["env-filter", "json"] }
