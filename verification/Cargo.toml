[package]
name = "tao_analysis"
version = "0.1.0"
edition = "2021"
publish = false

[dependencies]
hashbrown = "*"
