[package]
name = "psychoquine_core"
version = "0.1.0"
edition = "2021"
publish = false

[dependencies]
atty = "0.2"
serde = { version = "1", features = ["derive"] }
thiserror = "*"
tauri = { version = "*", default-features = false }
