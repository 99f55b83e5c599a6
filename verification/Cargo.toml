[package]
name = "pdh"
version = "0.1.0"
edition = "2021"
publish = false

[dependencies]
sha2 = "=0.10.9"
uuid = { version = "*", features = ["v4"] }
chrono = "*"
image = "*"
walkdir = "*"
rayon = "*"
log = "*"
env_logger = "*"
clap = { version = "*", features = ["derive"] }
