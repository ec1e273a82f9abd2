[package]
name = "github_contrib_stats"
version = "0.1.0"
edition = "2021"
publish = false

[dependencies]
anyhow = "1"
base64 = "0.22"
chrono = "0.4"
clap = "4"
futures = "0.3"
prettytable-rs = "*"
reqwest = { version = "0.12", default-features = false, features = ["json"] }
serde = { version = "1", features = ["derive"] }
serde_json = "1"
svg = "*"
tokio = { version = "1", features = ["macros", "rt-multi-thread"] }
