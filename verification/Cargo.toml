[package]
name = "nanite_clip"
version = "0.1.0"
edition = "2021"
publish = false

[dependencies]
url = "=2.5.8"
chrono = "=0.4.45"
directories = "=5.0.1"
serde = { version = "=1.0.229", features = ["derive"] }
toml = "=0.8.23"
sha2 = "=0.10.9"
semver = "=1.0.28"
serde_json = "=1.0.154"
auraxis = "*"
