[package]
name = "clack"
version = "0.1.0"
edition = "2021"
publish = false

[dependencies]
unicode-segmentation = "1"
rodio = { version = "0.17", default-features = false }
termion = "1.5"
toml = "0.5"
dirs = "4"
