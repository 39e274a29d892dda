[package]
name = "cirrus_audio"
version = "0.1.0"
edition = "2021"
publish = false

[dependencies]
anyhow = "=1.0.104"
cpal = "=0.14.2"
rubato = "=0.12.0"
tokio = { version = "=1.53.2", features = ["rt-multi-thread", "sync", "time", "macros"] }
walkdir = "=2.5.0"
