[package]
name = "my_iridium"
version = "0.1.0"
edition = "2021"
publish = false

[dependencies]
byteorder = "1"
uuid = { version = "1", features = ["v4"] }
num_cpus = "1"
clap = "4"
chrono = "0.4"
log = "0.4"
env_logger = "0.11"
