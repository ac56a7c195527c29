[package]
name = "poc_scada_core"
version = "0.1.0"
edition = "2021"
publish = false

[dependencies]
etherparse = "*"
pcap-parser = "*"
clap = { version = "*", features = ["derive"] }
serde = { version = "*", features = ["derive"] }
