[package]
name = "changelog_batch"
version = "0.1.0"
edition = "2021"
publish = false

[dependencies]
anchor-lang = "*"

[dev-dependencies]
borsh = "*"
