[package]
name = "zipscan"
version = "0.1.0"
edition = "2021"
publish = false

[dependencies]
anyhow = "=1.0.104"
clap = { version = "=4.6.7", features = ["derive"] }
indicatif = "=0.18.6"
jaq-core = "=2.2.1"
jaq-json = { version = "=1.1.3", features = ["serde_json"] }
jaq-std = "=2.1.2"
num_cpus = "=1.17.0"
regex = "=1.13.1"
serde_json = "=1.0.151"
threadpool = "=1.8.1"
zip = "=8.6.0"
