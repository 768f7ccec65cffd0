[package]
name = "emmylua_code_analysis"
version = "0.1.0"
edition = "2021"
publish = false

[dependencies]
hashbrown = "*"
itertools = "*"
log = "*"
fern = "*"
chrono = "*"
