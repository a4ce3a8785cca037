[package]
name = "drift-margin"
version = "0.1.0"
edition = "2021"
publish = false

[dependencies]
abi_stable = "0.11"
anchor-lang = "0.29"
fxhash = "0.2"
