[package]
name = "sherlock_rs"
version = "0.1.0"
edition = "2021"
publish = false

[dependencies]
fancy-regex = "*"
serde = { version = "1", features = ["derive"] }
serde_json = "1"
anyhow = "1"
clap = { version = "4", features = ["derive"] }
futures = "0.3"
tokio = { version = "1", features = ["macros", "rt-multi-thread"] }
reqwest = { version = "0.12", default-features = false, features = ["json", "rustls-tls", "socks"] }
