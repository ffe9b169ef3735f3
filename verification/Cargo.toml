[package]
name = "stdr_refline"
version = "0.1.0"
edition = "2021"
publish = false

[dependencies]
dxf = "*"
serde = "*"
serde_derive = "*"
toml = "*"
