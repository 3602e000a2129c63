[package]
name = "griffon"
version = "0.1.0"
edition = "2021"
publish = false

[dependencies]
uuid = { version = "1", features = ["v4"] }
sha2 = "0.10"
hex = "0.4"
serde = { version = "1", features = ["derive"] }
serde_json = "1"
toml = "*"
zip = { version = "*", default-features = false, features = ["deflate"] }
chrono = "0.4"
walkdir = "2"
infer = "*"
dirs = "*"
libc = "0.2"
tempfile = "3"
clap = { version = "4", features = ["derive"] }
thiserror = "*"
log = "0.4"
env_logger = "*"
rayon = "1"
notify-rust = "4"
