[package]
name = "agent"
version = "0.1.0"
edition = "2021"
publish = false

[dependencies]
serde = { version = "=1.0.229", features = ["derive"] }
serde_json = "=1.0.154"
anyhow = "=1.0.104"
clap = { version = "=4.6.7", features = ["derive"] }
chrono = "=0.4.45"
regex = "=1.13.1"
glob = "=0.3.4"
pulldown-cmark = { version = "0.13", default-features = false }
syntect = { version = "5", default-features = false, features = ["default-fancy"] }
ratatui = "0.29"
crossterm = "0.28"
tokio = { version = "1", features = ["full"] }
futures = "0.3"
thiserror = "2"
reqwest = { version = "0.12", default-features = false, features = ["json", "stream"] }
