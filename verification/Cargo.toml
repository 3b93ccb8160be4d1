[package]
name = "cocogitto"
version = "0.1.0"
edition = "2021"
publish = false

[dependencies]
semver = "*"
globset = "*"
anyhow = "*"
toml = "*"
conventional_commit_parser = "*"

[dependencies.git2]
version = "*"
default-features = false
