[package]
name = "tantabus"
version = "0.1.0"
edition = "2021"
publish = false

[dependencies]
cozy-chess = "=0.3.4"
rand = "=0.8.8"
rand_pcg = "=0.3.1"
clap = { version = "4", features = ["derive"] }
serde = { version = "1", features = ["derive"] }
ctrlc = "3"
