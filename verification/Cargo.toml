[package]
name = "lilypond_studio"
version = "0.1.0"
edition = "2021"
publish = false

[dependencies]
anyhow = "1"
async-std = "1"
sqlx = { version = "0.8", default-features = false, features = ["sqlite", "runtime-async-std"] }
