[package]
name = "ibroadcast_tui"
version = "0.1.0"
edition = "2021"
publish = false

[dependencies]
chrono = { version = "=0.4.45", default-features = false, features = ["clock", "std"] }
clap = { version = "=4.6.7", features = ["derive", "env"] }
crossterm = "=0.29.0"
dirs = "=6.0.0"
futures-util = "=0.3.34"
keyring = "=3.6.3"
rand = "=0.9.5"
ratatui = { version = "=0.30.2", default-features = false, features = ["crossterm", "layout-cache"] }
reqwest = { version = "=0.12.28", default-features = false, features = ["stream", "charset", "http2", "rustls-tls"] }
rodio = { version = "=0.22.2", default-features = false, features = ["playback", "flac", "mp3", "mp4", "vorbis", "wav"] }
serde = { version = "=1.0.229", features = ["derive"] }
serde_json = "=1.0.154"
thiserror = "=2.0.21"
tokio = { version = "=1.54.1", features = ["fs", "io-util", "macros", "rt-multi-thread", "sync", "time"] }
toml = "=0.9.12"
tracing = "=0.1.44"
tracing-subscriber = { version = "=0.3.23", features = ["env-filter"] }
urlencoding = "=2.1.3"
