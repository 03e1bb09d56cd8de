[package]
name = "worktree-gc"
version = "0.1.0"
edition = "2021"
publish = false

[dependencies]
anyhow = "1"
chrono = "0.4"
clap = { version = "4", features = ["derive", "env"] }
console = "=0.16.6"
dialoguer = "=0.12.0"
dirs = "=7.0.0"
env_logger = "0.11"
log = "0.4"
self_update = { version = "0.42", default-features = false, features = ["rustls"] }
serde = { version = "1", features = ["derive"] }
serde_json = "1"
