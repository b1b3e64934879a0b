[package]
name = "metis_core"
version = "0.1.0"
edition = "2021"
publish = false

[dependencies]
sha2 = "0.10"
gray_matter = "0.2"
serde_json = "1"
serde = { version = "1", features = ["derive"] }
git2 = { version = "0.20", default-features = false }
walkdir = "2"
chrono = { version = "0.4", default-features = false, features = ["clock", "std"] }
clap = { version = "4", features = ["derive"] }
anyhow = "1"
dialoguer = "0.11"
