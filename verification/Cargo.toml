[package]
name = "workerpool"
version = "1.2.1"
edition = "2021"
publish = false

[dependencies]
crossbeam-channel = "0.5"
num_cpus = "1"
parking_lot = "0.12"
