[package]
name = "animal_rig"
version = "0.1.0"
edition = "2021"
publish = false

[dependencies]
itertools = "0.10"
gdnative = "0.11"
rand = "0.8"
backtrace = "0.3"
