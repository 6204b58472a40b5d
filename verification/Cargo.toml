[package]
name = "quantum_chain"
version = "0.1.0"
edition = "2021"
publish = false

[dependencies]
rand = "0.8"
sha2 = "0.10"
chrono = "0.4"
