[package]
name = "poker_engine"
version = "0.1.0"
edition = "2021"
publish = false

[dependencies]
rand = "*"
vec_map = "*"
ansi_term = "*"
