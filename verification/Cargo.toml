[package]
name = "vocab_lessons"
version = "0.1.0"
edition = "2021"
publish = false

[dependencies]
serde = { version = "1", features = ["derive"] }
serde_json = "1"
scraper = { version = "0.29", default-features = false }
urlencoding = "2"
chrono = { version = "0.4", default-features = false, features = ["clock"] }
rusqlite = { version = "0.41", features = ["bundled"] }
reqwest = { version = "0.12", default-features = false, features = ["blocking"] }
tauri = { version = "2", default-features = false }
