[package]
name = "bench_harness"
version = "0.1.0"
edition = "2021"
publish = false

[dependencies]
ctrlc = "*"
env_logger = "*"
log = "*"
number_prefix = "*"
