[package]
name = "repo_scan"
version = "0.1.0"
edition = "2021"
publish = false

[dependencies]
gix = "=0.87.1"
ignore = "=0.4.34"
dunce = "=1.0.5"
notify = "=8.2.1"
notify-debouncer-full = "=0.7.0"
rayon = "=1.12.0"
serde = { version = "=1.0.229", features = ["derive"] }
serde_json = "=1.0.154"
thiserror = "=2.0.21"
anyhow = "=1.0.104"

[dev-dependencies]
tempfile = "=3.27.0"
