[package]
name = "fault_simulation"
version = "0.1.0"
edition = "2021"
publish = false

[dependencies]
unicorn-engine = "*"
log = "*"
