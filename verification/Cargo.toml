[package]
name = "recrm"
version = "0.1.0"
edition = "2021"
publish = false

[dependencies]
crossbeam = "0.8"
num_cpus = "1"
parking_lot = "0.12"
