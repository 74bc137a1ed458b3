[package]
name = "tfmttools"
version = "0.1.0"
edition = "2021"
publish = false

[dependencies]
adler2 = "=2.0.1"
camino = "=1.2.6"
chrono = "=0.4.45"
clap = { version = "=4.6.7", features = ["derive"] }
convert_case = "*"
lofty = "*"
minijinja = { version = "=2.24.0", features = ["loader"] }
regex = "=1.13.1"
serde = { version = "=1.0.229", features = ["derive"] }
serde_json = "=1.0.154"
toml = "=1.1.8"
