[package]
name = "pyrometer_fiesta"
version = "0.1.0"
edition = "2021"
publish = false

[dependencies]
chrono = "=0.4.45"
clap = { version = "=4.6.7", features = ["derive"] }
ethers = { version = "=2.0.14", default-features = false, features = ["etherscan"] }
indicatif = "=0.17.11"
num_cpus = "=1.17.0"
prettytable-rs = "=0.10.0"
regex = "=1.13.1"
serde = { version = "1", features = ["derive"] }
serde_json = "=1.0.154"
tokio = { version = "=1.54.1", features = ["macros", "rt-multi-thread", "signal", "sync", "time"] }
walkdir = "=2.5.0"
