[package]
name = "clipboard_tray"
version = "0.1.0"
edition = "2021"
publish = false

[dependencies]
tauri = { version = "2", default-features = false, features = ["wry", "tray-icon"] }
