[package]
name = "nix-vmware-fusion"
version = "0.1.0"
edition = "2021"
publish = false

[dependencies]
anyhow = "1"
atomic-write-file = "*"
clap = { version = "4", features = ["derive"] }
config = { version = "*", default-features = false }
duct = "*"
nutype = { version = "*", features = ["serde"] }
serde = { version = "1", features = ["derive"] }
serde_json = "1"
tempfile = "3"
