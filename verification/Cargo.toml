[package]
name = "music_library"
version = "0.1.0"
edition = "2021"
publish = false

[dependencies]
audiotags = "=0.5.0"
hex = "=0.4.3"
jwalk = "=0.9.0"
rodio = { version = "=0.23.0", default-features = false, features = ["flac", "mp3", "mp4", "vorbis", "wav"] }
rusqlite = { version = "=0.40.2", features = ["bundled"] }
serde = { version = "=1.0.229", features = ["derive"] }
serde_json = "=1.0.154"
