[package]
name = "nups2"
version = "0.1.0"
edition = "2021"
publish = false

[dependencies]
flate2 = "*"
clap = { version = "*", features = ["derive"] }
comfy-table = "*"
env_logger = "*"
log = "*"
quick-xml = "*"
rayon = "*"
regex = "*"
