[package]
name = "tundra"
version = "0.1.0"
edition = "2021"
publish = false

[dependencies]
fuzzy-matcher = "0.3"
walkdir = "2"
bincode = "1"
dirs = "5"
futures = "0.3"
async-std = "1"
rodio = "0.20"
