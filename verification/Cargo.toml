[package]
name = "ruma_lints"
version = "0.1.0"
edition = "2021"
publish = false
