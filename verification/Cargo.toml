[package]
name = "git2version"
version = "0.1.0"
edition = "2021"
publish = false

[dependencies]
git2 = "*"
konst = "*"
serde = { version = "*", features = ["derive"] }

[dev-dependencies]
tempdir = "*"
