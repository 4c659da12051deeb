[package]
name = "tokenguard"
version = "0.1.0"
edition = "2021"
publish = false

[dependencies]
dashmap = "=6.2.1"
semver = "=1.0.28"
tiktoken-rs = "=0.12.1"
serde_json = "=1.0.154"
chrono = "=0.4.45"
keyring = "=3.6.3"
sha2 = "=0.10.9"
hex = "=0.4.3"
whoami = "=2.1.3"
hostname = "=0.4.2"
url = "2"
