[package]
name = "arc"
version = "0.1.0"
edition = "2021"
publish = false

[dependencies]
serde = { version = "=1.0.229", features = ["derive"] }
serde_json = "=1.0.154"
clap = { version = "=4.6.7", features = ["derive"] }
anyhow = "=1.0.104"
dirs = "=7.0.0"
chrono = "=0.4.45"
async-trait = "=0.1.92"
tokio = { version = "=1.54.1", features = ["rt-multi-thread", "macros", "fs"] }
tracing = "=0.1.44"
indicatif = { version = "0.17", default-features = false }
