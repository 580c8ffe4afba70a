[package]
name = "aggregate_peek"
version = "0.1.0"
edition = "2021"
publish = false

[dependencies]
arrow = { version = "56", default-features = false }
datafusion-common = { version = "50", default-features = false }
datafusion-execution = { version = "50", default-features = false }
datafusion-expr = { version = "50", default-features = false }
datafusion-physical-expr = { version = "50", default-features = false }
futures = "0.3"
itertools = "0.14"
