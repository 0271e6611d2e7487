[package]
name = "p2p_core"
version = "0.1.0"
edition = "2021"
publish = false

[dependencies]
hex = "*"
crossbeam-channel = "*"
bytes = "*"
log = "*"
parking_lot = "*"
futures = "*"
tokio = "*"
tentacle = "*"
