[package]
name = "polars_ext"
version = "0.1.0"
edition = "2021"
publish = false

[dependencies]
polars = { version = "*", default-features = false, features = ["round_series", "dtype-decimal"] }
