[package]
name = "deck_diagrams"
version = "0.1.0"
edition = "2021"
publish = false

[dependencies]
base64 = "0.22"
clap = { version = "4", features = ["derive"] }
colorous = "1"
indexmap = "2"
regex = "1"
reqwest = { version = "0.12", default-features = false, features = ["blocking", "rustls-tls"] }
resvg = "*"
serde = { version = "1", features = ["derive"] }
serde_json = "1"
svg = "*"
