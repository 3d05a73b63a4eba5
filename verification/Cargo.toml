[package]
name = "git_hooks"
version = "0.1.0"
edition = "2021"
publish = false

[dependencies]
anyhow = "*"
clap = "*"
log = "*"
pretty_env_logger = "*"
regex = "*"
self_update = "*"
serde = { version = "*", features = ["derive"] }
serde_yaml = "*"
shlex = "*"
walkdir = "*"
