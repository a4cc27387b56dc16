[package]
name = "lbfgs_driver"
version = "0.1.0"
edition = "2021"
publish = false

[dependencies]
anyhow = "=1.0.104"
log = "=0.4.34"
candle-core = "=0.10.2"
candle-nn = "=0.10.2"
candle-optimisers = "=0.10.2"
