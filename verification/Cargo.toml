[package]
name = "nightwatche"
version = "0.1.0"
edition = "2021"
publish = false

[dependencies]
sha3 = "=0.10.9"
regex = "=1.13.1"
chrono = "=0.4.45"
anyhow = "=1.0.104"
axum = { version = "=0.7.9", features = ["macros"] }
dotenv = "=0.15.0"
futures = "=0.3.34"
hostname = "=0.4.2"
if-addrs = "=0.15.0"
log = "=0.4.35"
notify = "=6.1.1"
pretty_env_logger = "=0.5.0"
reqwest = { version = "=0.12.28", features = ["json"] }
serde = { version = "=1.0.229", features = ["derive"] }
serde_json = "=1.0.154"
takecell = "=0.1.1"
teloxide = { version = "=0.13.0", features = ["macros"] }
tokio = { version = "=1.54.1", features = ["full"] }
