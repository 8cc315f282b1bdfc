[package]
name = "deepnet"
version = "0.1.0"
edition = "2021"
publish = false

[dependencies]
pnet_datalink = "*"
crossbeam-channel = "*"
