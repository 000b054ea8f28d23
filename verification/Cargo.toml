[package]
name = "bitnoise"
version = "0.1.0"
edition = "2021"
publish = false

[dependencies]
rand = "0.8"
rand_pcg = "0.3"
hound = "3"
num-format = "0.4"
symphonia = "0.5"
