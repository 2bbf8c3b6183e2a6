[package]
name = "attacca"
version = "0.3.0"
edition = "2021"
publish = false

[dependencies]
serde_json = "=1.0.154"
unicode-width = "=0.2.0"
ratatui = "=0.29.0"
crossterm = "=0.28.1"
tokio = { version = "1", features = ["full"] }
futures-util = "0.3"
tracing = "0.1"
serde = { version = "1", features = ["derive"] }
dirs = "5"
dotenvy = "0.15"
reqwest = { version = "0.12", default-features = false, features = ["json"] }
zyris = { version = "=0.2.0", features = ["enroll"] }
zyris-attacca = "=0.2.0"
