[package]
name = "recommender"
version = "0.1.0"
edition = "2021"
publish = false

[dependencies]
serde_yaml = "*"
serde_json = "*"
url = "*"
urlencoding = "*"
clap = { version = "*", features = ["derive"] }
git2 = { version = "*", default-features = false }
tempfile = "*"
reqwest = { version = "*", default-features = false, features = ["json"] }
tokio = { version = "*", features = ["rt-multi-thread", "macros"] }
chrono = "*"
serde = { version = "*", features = ["derive"] }
log = "*"
env_logger = "*"
