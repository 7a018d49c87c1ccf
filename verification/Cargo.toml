[package]
name = "cargo_diagnose"
version = "0.1.0"
edition = "2021"
publish = false

[dependencies]
url = "=2.5.8"
cargo_metadata = "=0.23.1"
clap = { version = "=4.6.7", features = ["derive"] }
octocrab = "=0.41.2"
rand = "=0.10.3"
reqwest = { version = "=0.12.28", default-features = false, features = ["json", "rustls-tls"] }
rustls = { version = "=0.23.46", default-features = false, features = ["ring", "std"] }
serde = { version = "=1.0.229", features = ["derive"] }
serde_json = "=1.0.154"
tokio = { version = "=1.54.1", features = ["macros", "rt-multi-thread", "time", "sync"] }
