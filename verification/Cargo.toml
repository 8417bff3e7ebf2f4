[package]
name = "column_mapping"
version = "0.1.0"
edition = "2021"
publish = false

[dependencies]
delta_kernel = { version = "=0.20.0", default-features = false, features = ["internal-api"] }
serde_json = "=1.0.154"
uuid = { version = "=1.29.0", features = ["v4"] }
