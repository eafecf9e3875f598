[package]
name = "calendar_tui"
version = "0.1.0"
edition = "2021"
publish = false

[dependencies]
anyhow = "1"
chrono = "0.4"
crossterm = "0.28"
dirs = "5"
oauth2 = "4.4"
portpicker = "0.1"
ratatui = "0.29"
reqwest = { version = "0.11", default-features = false, features = ["json", "rustls-tls"] }
serde = { version = "1", features = ["derive"] }
serde_json = "1"
tokio = { version = "1", features = ["rt-multi-thread", "macros", "sync"] }
webbrowser = "1"
