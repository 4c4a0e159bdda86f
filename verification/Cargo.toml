[package]
name = "rs_route"
version = "0.1.0"
edition = "2021"
publish = false

[dependencies]
anyhow = "1"
bmi-driver = "*"
chrono = "0.4"
clap = "4"
colored = "*"
csv = "1"
indicatif = "*"
netcdf = "*"
num_cpus = "1"
rustc-hash = "2"
