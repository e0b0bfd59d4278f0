[package]
name = "factory_discovery"
version = "0.1.0"
edition = "2021"
publish = false

[dependencies]
ethers = { version = "2", default-features = false }
spinoff = "*"
