[package]
name = "acouwalk"
version = "0.1.0"
edition = "2021"
publish = false

[dependencies]
clap = "2"
cpal = "0.13"
crossbeam-channel = "0.5"
hound = "3"
jack = "*"
probability = "*"
rand = "0.8"
rand_distr = "0.4"
samplerate = "*"
walkdir = "2"
