[package]
name = "utxo_reducer"
version = "0.1.0"
edition = "2021"
publish = false

[dependencies]
hex = "0.4"
serde_json = "1"
serde = { version = "1", features = ["derive"] }
pallas = "0.18"
gasket = "*"
