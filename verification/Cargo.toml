[package]
name = "dbless"
version = "0.1.0"
edition = "2021"
publish = false

[dependencies]
redb = "2"
rmp-serde = "1"
serde = "1"
