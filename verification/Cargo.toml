[package]
name = "poirogue_core"
version = "0.1.0"
edition = "2021"
publish = false

[dependencies]
bit-set = "0.5"
bracket-lib = "0.8"
shipyard = "0.5"
structopt = "0.3"
