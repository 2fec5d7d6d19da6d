[package]
name = "avz"
version = "0.1.0"
edition = "2021"
publish = false

[dependencies]
anyhow = "1"
clap = { version = "4", features = ["derive"] }
indicatif = "0.17"
rayon = "1"
rustfft = "6"
serde = { version = "1", features = ["derive"] }
strsim = "0.11"
symphonia = { version = "0.5", features = ["mp3"] }
thiserror = "2"
toml = "0.8"
tracing = "0.1"
tracing-subscriber = { version = "0.3", features = ["env-filter"] }

[dev-dependencies]
tempfile = "3"
