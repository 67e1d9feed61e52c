[package]
name = "srt"
version = "0.1.0"
edition = "2021"
publish = false

[dependencies]
anyhow = "1"
bincode = "1.3"
serde = { version = "1", features = ["derive"] }
serde_json = "1"
memmap2 = "0.9"
p3-field = "0.2"
p3-matrix = "0.2"
