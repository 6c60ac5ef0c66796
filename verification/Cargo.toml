[package]
name = "pty_mux"
version = "0.1.0"
edition = "2021"
publish = false

[dependencies]
portable-pty = "=0.9.0"
serde = { version = "1", features = ["derive"] }
tauri = { version = "2", default-features = false }
