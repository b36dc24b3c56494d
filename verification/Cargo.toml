[package]
name = "battlebit_stats"
version = "0.1.0"
edition = "2021"
publish = false

[dependencies]
battlebit-api = "0.1"
gloo = "=0.8.1"
ybc = "=0.4.0"
yew = { version = "=0.20.0", features = ["csr"] }
