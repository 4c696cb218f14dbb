[package]
name = "dropin_cfg"
version = "0.1.0"
edition = "2021"
publish = false

[dependencies]
config = { version = "*", default-features = false, features = ["toml", "json", "yaml", "ini", "ron", "json5"] }
glob = "0.3"
