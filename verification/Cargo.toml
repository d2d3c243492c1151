[package]
name = "neuralnet"
version = "0.1.0"
edition = "2021"
publish = false

[dependencies]
rulinalg = "0.3"
rand = "0.3"
