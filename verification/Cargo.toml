[package]
name = "workspace"
version = "0.1.0"
edition = "2021"
publish = false

[dependencies]
winit = "0.30"
cpal = "0.15"
fontdue = "0.9"
rusqlite = { version = "0.32", features = ["bundled"] }
tracing = "0.1"
tracing-subscriber = { version = "0.3", features = ["json", "env-filter"] }
zeroize = "1"
