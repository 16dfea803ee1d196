[package]
name = "gd_account"
version = "0.1.0"
edition = "2021"
publish = false

[dependencies]
bcrypt = "0.15"
sha1 = "0.10"
