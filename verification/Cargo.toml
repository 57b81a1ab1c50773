[package]
name = "ockam_logic"
version = "0.1.0"
edition = "2021"
publish = false

[dependencies]
kafka-protocol = { version = "=0.18.0", default-features = false, features = ["client", "broker"] }
bytes = "=1.12.1"
clap = { version = "=4.6.7", features = ["derive"] }
time = { version = "=0.3.55", features = ["parsing", "formatting"] }
