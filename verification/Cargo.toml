[package]
name = "graph_reader"
version = "0.1.0"
edition = "2021"
publish = false

[dependencies]
clap = { version = "4", features = ["derive"] }
ndarray = "0.16"
