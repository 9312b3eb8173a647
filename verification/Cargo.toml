[package]
name = "ipblock"
version = "0.1.0"
edition = "2021"
publish = false

[dependencies]
ipnet = "2"
iprange = "0.6"
serde_json = "1"
