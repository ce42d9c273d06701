[package]
name = "continu"
version = "0.1.0"
edition = "2021"
publish = false

[dependencies]
base64 = "0.13"
openssl = "0.10"
serde = { version = "1", features = ["derive"] }
serde_json = "1"
bincode = "1"
chrono = "0.4"
clap = { version = "4", features = ["derive"] }
colored = "2"
dirs = "5"
dotenv = "0.15"
inquire = "0.7"
nix = { version = "0.29", features = ["user"] }
reqwest = { version = "0.11", features = ["json"] }
sys-info = "0.9"
tokio = { version = "1", features = ["rt-multi-thread", "macros", "time"] }
