[package]
name = "goal_extract"
version = "0.1.0"
edition = "2021"
publish = false

[dependencies]
url = "2"
urlencoding = "2"
tauri = { version = "2", default-features = false }
