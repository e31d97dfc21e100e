[package]
name = "nr"
version = "0.1.0"
edition = "2021"
publish = false

[dependencies]
clap = { version = "4", features = ["derive"] }
serde = { version = "1", features = ["derive"] }
serde_json = "1"
toml = "0.8"
tokio = { version = "1", features = ["rt", "process", "io-util", "sync"] }
tempfile = "3"
terminal_size = "0.4"
flate2 = "1"
tar = "0.4"
