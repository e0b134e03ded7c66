[package]
name = "netframe"
version = "0.1.0"
edition = "2021"
publish = false

[dependencies]
crc = "3"
internet-checksum = "0.2"
anyhow = "1"
tokio = { version = "1", features = ["full"] }
tun = { version = "0.7", features = ["async"] }
nix = { version = "0.29", features = ["term", "fs"] }
thiserror = "2"
utf8-parser = "*"
