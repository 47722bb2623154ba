[package]
name = "blindfold_chess"
version = "0.1.0"
edition = "2021"
publish = false

[dependencies]
pleco = "0.5"
pgn-reader = "0.17"
clap = "2"
