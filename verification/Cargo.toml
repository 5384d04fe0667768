[package]
name = "html5_picture"
version = "0.1.0"
edition = "2021"
publish = false

[dependencies]
clap = { version = "=4.6.7", features = ["derive"] }
fs_extra = "=1.3.0"
image = { version = "=0.25.10", default-features = false, features = ["png"] }
indicatif = "=0.17.11"
log = "=0.4.34"
pretty_env_logger = "=0.5.0"
queue = "=0.3.1"
serde = { version = "=1.0.229", features = ["derive"] }
tokio = { version = "=1.54.1", features = ["rt-multi-thread"] }
walkdir = "=2.5.0"
webp = "=0.3.1"
