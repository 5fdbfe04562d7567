[package]
name = "lil_miss"
version = "0.1.0"
edition = "2021"
publish = false

[dependencies]
clap = "3.2"
log = "0.4"
pretty_env_logger = "0.4"
