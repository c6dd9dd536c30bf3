[package]
name = "tinydancer"
version = "0.1.0"
edition = "2021"
publish = false

[dependencies]
solana-sdk = "1.18"
indexmap = "1.9"
rand = "0.8"
rayon = "1"
serde = { version = "1", features = ["derive"] }
serde_json = "1"
bincode = "1"
tokio = { version = "1", features = ["full"] }
async-trait = "0.1"
crossbeam = "0.8"
futures = "0.3"
anyhow = "1"
thiserror = "1"
clap = { version = "4", features = ["derive"] }
colored = "2"
spinoff = "0.7"
tui = "0.19"
crossterm = "0.25"
tungstenite = "0.18"
url = "2"
reqwest = { version = "0.11", default-features = false, features = ["json"] }
dashmap = "5"
lru = "0.7"
