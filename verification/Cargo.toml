[package]
name = "gauss"
version = "0.1.0"
edition = "2021"
publish = false

[dependencies]
ash = "0.37"
gpu-allocator = "0.26"
shaderc = "0.8"
log = "0.4"
env_logger = "*"
ndarray = "0.15"
indoc = "*"
