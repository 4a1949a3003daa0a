[package]
name = "stationeers_mips"
version = "0.1.0"
edition = "2021"
publish = false

[dependencies]
float-cmp = "0.9"
rand = "0.8"
