[package]
name = "gridsync"
version = "0.1.0"
edition = "2021"
publish = false

[dependencies]
owo-colors = "3"
rand = "0.8"
renet = "=0.0.10"
