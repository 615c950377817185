[package]
name = "tbook"
version = "0.1.0"
edition = "2021"
publish = false

[dependencies]
anyhow = "=1.0.104"
chrono = "=0.4.45"
config = { version = "=0.15.27", default-features = false, features = ["toml"] }
crossterm = "=0.29.0"
dirs = "=7.0.0"
epub = "=2.1.5"
html2text = "=0.17.1"
image = { version = "=0.25.10", default-features = false, features = ["png", "jpeg", "gif", "webp", "bmp"] }
pdf = "=0.10.0"
ratatui = "=0.30.2"
ratatui-image = { version = "=11.1.0", default-features = false, features = ["crossterm"] }
rusqlite = { version = "=0.40.2", features = ["bundled"] }
serde = { version = "=1.0.229", features = ["derive"] }
tokio = { version = "=1.53.2", features = ["rt-multi-thread", "macros", "sync", "time"] }
toml = "=1.1.7"
unicode-width = "=0.2.2"
walkdir = "=2.5.0"
