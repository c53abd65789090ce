[package]
name = "pqc_hsm"
version = "0.1.0"
edition = "2021"
publish = false

[dependencies]
slh-dsa = "=0.1.0"
signature = "=2.3.0-pre.4"
rand_core = { version = "=0.6.4", features = ["getrandom"] }
cryptoki-sys = "=0.5.0"
serialport = { version = "=4.10.1", default-features = false }

[dev-dependencies]
hex = "0.4"
