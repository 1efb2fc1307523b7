[package]
name = "layout_matrix"
version = "0.1.0"
edition = "2021"
publish = false

[dependencies]
csv = "1"
num-traits = "0.2"
serde = "1"
