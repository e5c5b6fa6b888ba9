[package]
name = "netspeed"
version = "0.1.0"
edition = "2021"
publish = false

[dependencies]
anyhow = "*"
clap = { version = "*", features = ["derive"] }
dirs = "*"
eframe = { version = "0.22", default-features = false, features = ["glow"] }
log = "*"
simplelog = "*"
