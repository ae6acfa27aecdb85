[package]
name = "keystore_import"
version = "0.1.0"
edition = "2021"
publish = false

[dependencies]
clap = "=2.34.0"
eth2_ssz = "0.1.2"
hex = "=0.4.3"
rpassword = "=4.0.5"
