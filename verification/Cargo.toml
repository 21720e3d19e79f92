[package]
name = "versions"
version = "0.1.0"
edition = "2021"
publish = false

[dependencies]
base64 = "=0.23.1"
clap = { version = "=4.6.7", features = ["derive"] }
clap_complete = "=4.6.11"
colored = "=3.1.1"
diffy = { version = "=0.5.2", features = ["std"] }
flate2 = "=1.1.10"
serde = { version = "=1.0.229", features = ["derive"] }
serde_yml = "=0.0.13"
sha2 = "=0.11.0"
walkdir = "=2.5.0"
