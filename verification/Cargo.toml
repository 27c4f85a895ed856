[package]
name = "rust_releases"
version = "0.1.0"
edition = "2021"
publish = false

[dependencies]
semver = "*"
attohttpc = "*"
directories-next = "*"
toml = "*"
thiserror = "*"
