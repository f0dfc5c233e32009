[package]
name = "gauloi"
version = "0.1.0"
edition = "2021"
publish = false

[dependencies]
anyhow = "1"
async-trait = "0.1"
bitcoin = "=0.30.3"
clap = { version = "4", features = ["derive"] }
ethers = { version = "=2.0.14", default-features = false, features = ["abigen"] }
hex = "=0.4.3"
rand = "=0.8.8"
redb = "=1.5.2"
reqwest = { version = "0.11", default-features = false, features = ["json", "rustls-tls"] }
rustyline = "=14.0.0"
serde = { version = "1", features = ["derive"] }
shellfish = { version = "=0.10.1", features = ["async", "clap", "tokio"] }
thiserror = "1"
tokio = { version = "1", features = ["macros", "rt-multi-thread", "time", "fs", "io-std", "io-util"] }
yansi = "0.5"

[dev-dependencies]
bitcoinconsensus = "=0.106.0"
ciborium = "=0.2.2"
