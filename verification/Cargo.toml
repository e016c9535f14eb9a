[package]
name = "unit_algebra"
version = "0.1.0"
edition = "2021"

[dependencies]
typenum = "1"
