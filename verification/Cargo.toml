[package]
name = "proof_of_work"
version = "0.1.0"
edition = "2021"
publish = false

[dependencies]
chrono = { version = "0.4", default-features = false, features = ["clock"] }
num-bigint = { version = "0.4", features = ["rand"] }
rand = "0.8"
sha2 = "0.10"
