[package]
name = "hitmap"
version = "0.1.1"
edition = "2021"
publish = false

[dependencies]
base64 = "0.22"
chrono = "0.4"
clap = { version = "4", features = ["derive"] }
comfy-table = "7"
fontdb = "0.16"
image = { version = "0.25", default-features = false, features = ["png"] }
libc = "0.2"
regex = "1"
rusttype = "0.9"
serde = { version = "1", features = ["derive"] }
serde_json = "1"
toml = "0.8"
