[package]
name = "mist"
version = "0.1.0"
edition = "2021"
publish = false

[dependencies]
clap = { version = "3", features = ["derive"] }
flate2 = "1"
gpgme = "0.10"
openssh = "0.8"
tar = "0.4"
tokio = { version = "1", features = ["full"] }
toml = "0.5"
twox-hash = "1"
walkdir = "2"
