[package]
name = "modelcheck"
version = "0.1.0"
edition = "2021"
publish = false

[dependencies]
pulldown-cmark = { version = "0.13", default-features = false }
anyhow = "1"
async-trait = "0.1"
tokio = { version = "1", features = ["full"] }
reqwest = { version = "0.12", features = ["json", "stream"] }
serde = { version = "1", features = ["derive"] }
serde_json = "1"
time = "0.3"
oauth2 = { version = "5", features = ["reqwest"] }
dirs = "6"
futures-util = "0.3"
dotenvy = "0.15"
webbrowser = "1"
axum = "0.8"
keyring = "3"
