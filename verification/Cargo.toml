[package]
name = "round_liveness"
version = "0.1.0"
edition = "2021"
publish = false
