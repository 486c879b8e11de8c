[package]
name = "descramble"
version = "0.1.0"
edition = "2021"
publish = false

[dependencies]
rand = "=0.9.5"
image = { version = "=0.25.10", default-features = false, features = ["png", "jpeg"] }
radiate = "=1.3.1"
rayon = "=1.12.0"
clap = { version = "=4.6.7", features = ["derive"] }
color-eyre = "=0.6.5"
serde = { version = "=1.0.229", features = ["derive"] }
serde_json = "=1.0.154"
tempfile = "=3.27.0"
thiserror = "=2.0.21"
tracing = "=0.1.44"
tracing-subscriber = { version = "=0.3.23", features = ["env-filter"] }
