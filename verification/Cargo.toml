[package]
name = "stance_consensus"
version = "0.1.0"
edition = "2021"
publish = false

[dependencies]
parity-scale-codec = "3"
futures = "0.3"
log = "0.4"
