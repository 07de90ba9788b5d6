[package]
name = "scan_metadata"
version = "0.1.0"
edition = "2021"
publish = false

[dependencies]
chrono = "=0.4.45"
chrono-tz = "=0.10.4"
clap = { version = "=4.6.7", features = ["derive"] }
directories = "=6.0.0"
log = "=0.4.35"
num = "=0.4.3"
regex = "1"
rexiv2 = "=0.10.0"
serde = { version = "=1.0.229", features = ["derive"] }
serde_json = "=1.0.154"
serde_yaml = "=0.9.34"
simplelog = "=0.12.2"
thiserror = "=2.0.21"
zip = { version = "=9.2.2", default-features = false, features = ["deflate"] }
