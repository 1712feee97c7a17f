[package]
name = "medical_records"
version = "0.1.0"
edition = "2021"
publish = false

[dependencies]
candid = "=0.10.39"
ic-cdk = "0.17"
ic-cdk-macros = "0.17"
serde = { version = "=1.0.229", features = ["derive"] }
