[package]
name = "leli"
version = "0.1.0"
edition = "2021"
publish = false

[dependencies]
clap = { version = "4", features = ["derive"] }
diesel = { version = "2", features = ["sqlite"] }
dotenvy = "0.15"
regex = "1"
serde = { version = "1", features = ["derive"] }
serde_yaml = "0.9"
walkdir = "2"
