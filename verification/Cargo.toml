[package]
name = "zmq_patterns"
version = "0.1.0"
edition = "2021"
publish = false

[dependencies]
rand = "0.9"
zmq = "0.10"
local-ip-address = "0.6"
