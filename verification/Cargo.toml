[package]
name = "mortality_stats"
version = "0.1.0"
edition = "2021"
publish = false

[dependencies]
anyhow = "*"
calamine = "*"
plotters = "*"
prettytable-rs = "*"
