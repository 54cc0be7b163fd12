[package]
name = "netflow_generator"
version = "0.1.0"
edition = "2021"

[dependencies]
netflow_parser = "0.8"
clap = { version = "4", features = ["derive"] }
ctrlc = "3"
pcap-file = "2"
rayon = "1"
serde = { version = "1", features = ["derive"] }
serde_yaml = "0.9"
thiserror = "1"
