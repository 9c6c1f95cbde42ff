[package]
name = "grunge"
version = "0.1.0"
edition = "2021"

[dependencies]
cgmath = "0.18"
