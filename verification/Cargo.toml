[package]
name = "epanet_rs"
version = "0.1.0"
edition = "2021"
publish = false

[dependencies]
faer = "*"
rayon = "*"
serde = { version = "*", features = ["derive"] }
