[package]
name = "dsmr_parser"
version = "0.1.0"
edition = "2021"
publish = false

[dependencies]
tudelft-dsmr-output-generator = "*"
