[package]
name = "codexi"
version = "0.1.0"
edition = "2021"
publish = false

[dependencies]
anyhow = "=1.0.104"
bincode = "=1.3.3"
chrono = { version = "=0.4.45", default-features = false, features = ["std", "clock", "serde"] }
clap = { version = "=4.6.7", features = ["derive"] }
csv = "=1.4.0"
directories = "=5.0.1"
env_logger = "=0.11.11"
log = "=0.4.34"
owo-colors = "=4.4.0"
serde = { version = "=1.0.229", features = ["derive"] }
thiserror = "=1.0.69"
thousands = "=0.2.0"
toml = "=0.8.23"
walkdir = "=2.5.0"
zip = { version = "=0.6.6", default-features = false, features = ["deflate"] }
