[package]
name = "git_fixme"
version = "0.1.0"
edition = "2021"
publish = false

[dependencies]
git2 = { version = "*", default-features = false }
docopt = "1"
serde = { version = "1", features = ["derive"] }
serde_derive = "1"
