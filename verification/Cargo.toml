[package]
name = "ohpdf"
version = "0.1.0"
edition = "2021"
publish = false

[dependencies]
mupdf = "*"
base64 = "0.22"
serde = { version = "1", features = ["derive"] }
serde_json = "1"
anyhow = "1"
log = "0.4"
env_logger = "*"
tempfile = "3"
dirs = "*"
