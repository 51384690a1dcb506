[package]
name = "fasttext_parallel"
version = "0.1.0"
edition = "2021"
publish = false

[dependencies]
crossbeam = "*"
fasttext = "*"
rayon = "*"
