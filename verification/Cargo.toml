[package]
name = "aether_gui"
version = "0.7.0"
edition = "2021"
publish = false

[dependencies]
portable-pty = "0.9"
serde = { version = "1", features = ["derive"] }
thiserror = "2"
tauri = { version = "2", default-features = false }
