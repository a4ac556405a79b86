[package]
name = "dexpaprika_cli"
version = "0.1.0"
edition = "2021"
publish = false

[dependencies]
anyhow = "=1.0.104"
chrono = "=0.4.45"
clap = { version = "=4.6.7", features = ["derive"] }
futures = "=0.3.34"
reqwest = { version = "=0.13.5", default-features = false, features = ["json", "query", "stream"] }
reqwest-eventsource = "=0.6.0"
serde = { version = "=1.0.229", features = ["derive"] }
serde_json = "=1.0.151"
tabled = "=0.22.0"
tokio = { version = "=1.53.2", features = ["rt-multi-thread", "macros", "signal"] }
