[package]
name = "befunge"
version = "0.1.0"
edition = "2021"
publish = false

[dependencies]
lehmer = "*"
rand = "0.8"
chrono = "*"
clap = { version = "*", features = ["derive"] }
anyhow = "*"
