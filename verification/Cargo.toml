[package]
name = "rsget"
version = "0.1.0"
edition = "2021"
publish = false

[dependencies]
anyhow = "*"
aws-sdk-s3 = "*"
bytes = "*"
colored = "*"
dotenv = "*"
indicatif = "*"
notify-rust = "*"
rustyline = "*"
serde = { version = "*", features = ["derive"] }
serde_json = "*"
sevenz-rust = "*"
sysinfo = "*"
tokio = { version = "*", features = ["full"] }
walkdir = "*"
whoami = "*"
