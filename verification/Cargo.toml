[package]
name = "fxa_client"
version = "0.1.0"
edition = "2021"
publish = false

[dependencies]
log = "0.4"
serde_json = "1"
url = "2"
parking_lot = "0.12"
