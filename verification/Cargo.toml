[package]
name = "jellofin"
version = "0.1.0"
edition = "2021"
publish = false

[dependencies]
sha2 = "=0.10.9"
arc-swap = "=1.9.3"
walkdir = "=2.5.0"
chrono = "=0.4.45"
serde = { version = "=1.0.229", features = ["derive"] }
serde_yaml = "=0.9.34"
clap = { version = "=4.6.7", features = ["derive"] }
tracing = "=0.1.44"
quick-xml = { version = "*", features = ["serialize"] }

[dev-dependencies]
regex = "=1.13.1"
