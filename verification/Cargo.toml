[package]
name = "liq_by_token_pair"
version = "0.1.0"
edition = "2021"
publish = false

[dependencies]
pallas = "*"
gasket = "*"
serde = { version = "*", features = ["derive"] }
