[package]
name = "vml"
version = "0.1.0"
edition = "2021"
publish = false

[dependencies]
anyhow = "*"
byte-unit = "*"
clap = { version = "*", features = ["derive"] }
file-lock = "*"
json = "*"
procfs = "*"
rand = "0.8"
serde = { version = "*", features = ["derive"] }
shellexpand = "*"
tempfile = "*"
tera = "*"
thiserror = "*"
toml = "*"
urlencoding = "*"
walkdir = "*"
