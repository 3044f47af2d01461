[package]
name = "reqev"
version = "0.1.0"
edition = "2021"
publish = false

[dependencies]
clap = { version = "4", features = ["derive"] }
serde_yaml = "0.9"
ureq = "2"
