[package]
name = "smart_transfer"
version = "0.1.0"
edition = "2021"
publish = false

[dependencies]
zip = { version = "=0.6.6", default-features = false, features = ["deflate"] }
zstd = "=0.13.3"
sevenz-rust = { version = "=0.5.4", features = ["compress"] }
directories = "=5.0.1"
libloading = "=0.8.9"
walkdir = "=2.5.0"
chrono = "=0.4.45"
log = "=0.4.34"
anyhow = "1"
serde = { version = "1", features = ["derive"] }

[dev-dependencies]
tempfile = "=3.27.0"
