[package]
name = "gpgme_bindings"
version = "0.1.0"
edition = "2021"
publish = false

[dependencies]
gpgme = "*"
rustler = "*"
rustler_codegen = "*"
lazy_static = "*"
