[package]
name = "lamport"
version = "0.1.0"
edition = "2021"
publish = false

[dependencies]
ring = "=0.17.14"
rand = "=0.8.8"
