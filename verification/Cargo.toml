[package]
name = "butai"
version = "0.1.0"
edition = "2021"
publish = false

[dependencies]
slotmap = "1"
humantime = "2"
serde = { version = "1", features = ["derive"] }
toml = "*"
url = { version = "2", features = ["serde"] }
clap = { version = "4", features = ["derive", "env"] }
tokio = { version = "1", features = ["full"] }
tokio-util = "0.7"
futures = "0.3"
tracing = "0.1"
tracing-subscriber = { version = "0.3", features = ["env-filter"] }
chromiumoxide = "*"
chrono = "0.4"
async-trait = "0.1"
thiserror = "*"
