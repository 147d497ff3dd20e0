[package]
name = "registry_versions"
version = "0.1.0"
edition = "2021"
publish = false

[dependencies]
semver = "1"
time = { version = "0.3", features = ["formatting"] }
url = "2"
