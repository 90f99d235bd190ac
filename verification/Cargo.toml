[package]
name = "dpr_simulator"
version = "0.1.0"
edition = "2021"
publish = false

[dependencies]
rand = "0.9"
polars = { version = "*", default-features = false, features = ["lazy", "parquet", "fmt"] }
rayon = "*"
clap = { version = "*", features = ["derive"] }
