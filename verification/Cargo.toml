[package]
name = "monkey_theorem"
version = "0.1.0"
edition = "2021"
publish = false

[dependencies]
fastrand = "*"
num_cpus = "*"
