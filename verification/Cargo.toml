[package]
name = "protest"
version = "0.1.0"
edition = "2021"
publish = false

[dependencies]
rand = "0.8"
num_cpus = "1"
crossbeam = "0.8"
num-traits = "0.2"
serde = { version = "1", features = ["derive"] }
serde_json = "1"
